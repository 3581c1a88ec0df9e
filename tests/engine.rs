use oairs::bundled::{cl100k_base, p50k_edit, r50k_base};
use oairs::core_bpe::{CoreBpe, DecodeError, VocabularyError};
use oairs::tokenize::{tokenize, tokenize_custom, tokenize_with_special};
use oairs::tokenizer::{validate_special, SpecialToken, SpecialTokens, Tokenizer};

fn tiny_engine() -> CoreBpe {
    let mut entries: Vec<(Vec<u8>, usize)> = (0u16..256).map(|b| (vec![b as u8], b as usize)).collect();
    entries.push((b"ab".to_vec(), 256));
    entries.push((b"bc".to_vec(), 257));
    entries.push((b"abc".to_vec(), 258));
    entries.push((b"cd".to_vec(), 259));
    let specials = vec![("<|end|>".to_string(), 1000)];
    CoreBpe::new(entries, specials, "[a-z]+|[^a-z]+").unwrap()
}

#[test]
fn merge_lowest_rank_first() {
    let bpe = tiny_engine();
    // "abcd": "ab" (256) merges before "bc" (257) and "cd" (259); then "abc" (258)
    // merges before "cd" (259).
    assert_eq!(bpe.encode_ordinary("abcd"), vec![258, b'd' as usize]);
    // "abc" is held whole.
    assert_eq!(bpe.encode_ordinary("abc"), vec![258]);
    // "bcd": "bc" (257) before "cd" (259).
    assert_eq!(bpe.encode_ordinary("bcd"), vec![257, b'd' as usize]);
}

#[test]
fn merge_leftmost_among_equal_ranks() {
    let mut entries: Vec<(Vec<u8>, usize)> = (0u16..256).map(|b| (vec![b as u8], b as usize)).collect();
    entries.push((b"aa".to_vec(), 300));
    let bpe = CoreBpe::new(entries, vec![], "[a-z]+").unwrap();
    assert_eq!(bpe.encode_ordinary("aaa"), vec![300, b'a' as usize]);
    assert_eq!(bpe.encode_ordinary("aaaa"), vec![300, 300]);
}

#[test]
fn bytes_between_matches_are_encoded() {
    let mut entries: Vec<(Vec<u8>, usize)> = (0u16..256).map(|b| (vec![b as u8], b as usize)).collect();
    entries.push((b"ab".to_vec(), 256));
    entries.push((b"cd".to_vec(), 257));
    let bpe = CoreBpe::new(entries, vec![], "[a-z]+").unwrap();
    let tokens = bpe.encode_ordinary("ab, cd!");
    assert_eq!(tokens, vec![256, b',' as usize, b' ' as usize, 257, b'!' as usize]);
    assert_eq!(bpe.decode(&tokens).unwrap(), b"ab, cd!".to_vec());
}

#[test]
fn special_token_only_when_allowed() {
    let bpe = tiny_engine();
    let with = bpe.encode("ab<|end|>cd", &["<|end|>"]);
    assert_eq!(with, vec![256, 1000, 259]);
    let without = bpe.encode("ab<|end|>cd", &[]);
    assert!(!without.contains(&1000));
    assert_eq!(without, bpe.encode_ordinary("ab<|end|>cd"));
    assert_eq!(bpe.encode_with_special_tokens("ab<|end|>cd"), with);
}

#[test]
fn decode_unknown_id_fails() {
    let bpe = tiny_engine();
    assert_eq!(bpe.decode(&[256, 5000, 1]), Err(DecodeError::UnknownTokenId(5000)));
    assert_eq!(bpe.decode(&[256, 1000]), Ok(b"ab<|end|>".to_vec()));
    assert_eq!(bpe.decode(&[]), Ok(vec![]));
}

#[test]
fn vocabulary_errors() {
    let singles = || -> Vec<(Vec<u8>, usize)> { (0u16..256).map(|b| (vec![b as u8], b as usize)).collect() };
    let mut dup_bytes = singles();
    dup_bytes.push((vec![b'a'], 400));
    assert_eq!(CoreBpe::new(dup_bytes, vec![], "a").err(), Some(VocabularyError::DuplicateBytes(256)));
    let mut dup_rank = singles();
    dup_rank.push((b"xy".to_vec(), 3));
    assert_eq!(CoreBpe::new(dup_rank, vec![], "a").err(), Some(VocabularyError::DuplicateRank(256)));
    let missing: Vec<(Vec<u8>, usize)> = (0u16..255).map(|b| (vec![b as u8], b as usize)).collect();
    assert_eq!(CoreBpe::new(missing, vec![], "a").err(), Some(VocabularyError::MissingByte(255)));
    let clash = vec![("<|x|>".to_string(), 7)];
    assert_eq!(CoreBpe::new(singles(), clash, "a").err(), Some(VocabularyError::BadSpecial(0)));
    let empty = vec![("".to_string(), 700)];
    assert_eq!(CoreBpe::new(singles(), empty, "a").err(), Some(VocabularyError::BadSpecial(0)));
    let twice = vec![("<|x|>".to_string(), 700), ("<|y|>".to_string(), 700)];
    assert_eq!(CoreBpe::new(singles(), twice, "a").err(), Some(VocabularyError::BadSpecial(1)));
    assert_eq!(CoreBpe::new(singles(), vec![], "(").err(), Some(VocabularyError::BadPattern));
}

#[test]
fn round_trip_cl100k() {
    let bpe = cl100k_base().unwrap();
    for text in [
        "",
        "hello world",
        "  leading and trailing spaces  ",
        "numbers 1234567 and symbols !@#$%^&*()",
        "unicode: héllo wörld — 日本語のテキスト 🎉",
        "line one\nline two\r\n\n\ttabbed",
        "contractions: I'm, you're, they'll, it's",
    ] {
        let tokens = bpe.encode_ordinary(text);
        assert_eq!(bpe.decode(&tokens).unwrap(), text.as_bytes().to_vec());
        let special = bpe.encode_with_special_tokens(text);
        assert_eq!(bpe.decode(&special).unwrap(), text.as_bytes().to_vec());
    }
}

#[test]
fn round_trip_r50k() {
    let bpe = r50k_base().unwrap();
    let text = "The quick brown fox jumps over the lazy dog. 42 times!";
    let tokens = bpe.encode_ordinary(text);
    assert_eq!(bpe.decode(&tokens).unwrap(), text.as_bytes().to_vec());
}

#[test]
fn encoding_is_deterministic() {
    let bpe = cl100k_base().unwrap();
    let text = "Determinism: the same text twice gives the same tokens.";
    assert_eq!(bpe.encode_ordinary(text), bpe.encode_ordinary(text));
}

#[test]
fn sentinel_gets_its_reserved_id() {
    let bpe = cl100k_base().unwrap();
    let tokens = bpe.encode("before<|endoftext|>after", &["<|endoftext|>"]);
    let before = bpe.encode_ordinary("before");
    let after = bpe.encode_ordinary("after");
    let mut expected = before.clone();
    expected.push(100257);
    expected.extend(after);
    assert_eq!(tokens, expected);
    assert_eq!(tokens.iter().filter(|&&t| t == 100257).count(), 1);
    let literal = bpe.encode_ordinary("<|endoftext|>");
    assert!(!literal.contains(&100257));
    assert!(literal.len() > 1);
}

#[test]
fn tokenize_treats_sentinel_as_text() {
    let tokens = tokenize("a<|endoftext|>b", Tokenizer::CL100KBase).unwrap();
    assert!(!tokens.contains(&100257));
    let special = tokenize_with_special("a<|endoftext|>b", Tokenizer::CL100KBase).unwrap();
    assert!(special.contains(&100257));
}

#[test]
fn tokenize_custom_rejects_unrecognized() {
    let mut requested = SpecialTokens::new();
    requested.insert(SpecialToken::EndOfPrompt);
    let err = tokenize_custom("hi", Tokenizer::P50KEdit, requested).unwrap_err();
    assert_eq!(err.error_type, "Tokenizer Error");
    assert_eq!(err.param, Some("p50k_edit".to_string()));
    assert_eq!(err.message, "Special token EndOfPrompt is not recognized by tokenizer P50KEdit.");
}

#[test]
fn tokenize_custom_recognizes_allowed() {
    let mut requested = SpecialTokens::new();
    requested.insert(SpecialToken::FimPrefix);
    let tokens = tokenize_custom("x<|fim_prefix|>y<|endoftext|>", Tokenizer::P50KEdit, requested).unwrap();
    assert!(tokens.contains(&50281));
    assert!(!tokens.contains(&50256));
    let bpe = p50k_edit().unwrap();
    assert_eq!(bpe.decode(&tokens).unwrap(), b"x<|fim_prefix|>y<|endoftext|>".to_vec());
}

#[test]
fn validate_fails_iff_unrecognized() {
    let mut ok = SpecialTokens::new();
    ok.insert(SpecialToken::EndOfText);
    assert_eq!(validate_special(Tokenizer::R50KBase, &ok), Ok(()));
    assert_eq!(validate_special(Tokenizer::R50KBase, &SpecialTokens::new()), Ok(()));
    let all = SpecialTokens::from_vec(SpecialToken::all());
    assert_eq!(validate_special(Tokenizer::CL100KBase, &all), Ok(()));
    assert_eq!(validate_special(Tokenizer::P50KEdit, &all), Err(SpecialToken::EndOfPrompt));
    let mut fim = SpecialTokens::new();
    fim.insert(SpecialToken::FimMiddle);
    assert_eq!(validate_special(Tokenizer::P50KBase, &fim), Err(SpecialToken::FimMiddle));
}

#[test]
fn recognized_sets() {
    assert_eq!(Tokenizer::CL100KBase.recognized_special().len(), 5);
    let edit = Tokenizer::P50KEdit.recognized_special();
    assert_eq!(edit.len(), 4);
    assert!(!edit.contains(SpecialToken::EndOfPrompt));
    let base = Tokenizer::R50KBase.recognized_special();
    assert_eq!(base.iter(), vec![SpecialToken::EndOfText]);
    assert_eq!(Tokenizer::default(), Tokenizer::CL100KBase);
    assert_eq!(Tokenizer::P50KBase.to_str(), "p50k_base");
    assert_eq!(SpecialToken::FimSuffix.to_str(), "<|fim_suffix|>");
}

#[test]
fn special_tokens_set_operations() {
    let mut s = SpecialTokens::new();
    assert!(s.is_empty());
    s.insert(SpecialToken::EndOfText);
    s.insert(SpecialToken::EndOfText);
    assert_eq!(s.len(), 1);
    s.extend(vec![SpecialToken::FimMiddle, SpecialToken::EndOfText]);
    assert_eq!(s.len(), 2);
    assert_eq!(s.iter(), vec![SpecialToken::EndOfText, SpecialToken::FimMiddle]);
    assert_eq!(s.to_str_set(), vec!["<|endoftext|>", "<|fim_middle|>"]);
    assert_eq!(SpecialTokens::from_vec(vec![SpecialToken::FimMiddle, SpecialToken::EndOfText]), s);
}

#[test]
fn with_special_equals_custom_with_all_recognized() {
    for t in [Tokenizer::CL100KBase, Tokenizer::P50KEdit] {
        let text = "a<|endoftext|>b<|fim_prefix|>c<|endofprompt|>";
        let with = tokenize_with_special(text, t).unwrap();
        let custom = tokenize_custom(text, t, t.recognized_special()).unwrap();
        assert_eq!(with, custom);
    }
}

#[test]
fn tokenize_custom_splits_at_sentinels() {
    let mut allowed = SpecialTokens::new();
    allowed.insert(SpecialToken::EndOfText);
    let r = tokenize_custom("before<|endoftext|>after", Tokenizer::CL100KBase, allowed).unwrap();
    let mut expected = tokenize("before", Tokenizer::CL100KBase).unwrap();
    expected.push(100257);
    expected.extend(tokenize("after", Tokenizer::CL100KBase).unwrap());
    assert_eq!(r, expected);
    let err = tokenize_custom("x", Tokenizer::R50KBase, SpecialTokens::from_vec(vec![SpecialToken::FimPrefix])).unwrap_err();
    assert_eq!(err.code, None);
    assert_eq!(err.message, "Special token FimPrefix is not recognized by tokenizer R50KBase.");
}
