use oairs::bundled::cl100k_base;
use oairs::models::{encoding_for_model, resolve_tokenizer};
use oairs::tokenize::tokenize;
use oairs::tokenizer::Tokenizer;

#[test]
fn test_encoding_for_model() {
    assert_eq!(encoding_for_model("gpt-3.5-turbo"), Some("cl100k_base"));
    assert_eq!(
        encoding_for_model("gpt-3.5-turbo-0301"),
        Some("cl100k_base")
    );
    assert_eq!(encoding_for_model("text-davinci-003"), Some("p50k_base"));
    assert_eq!(
        encoding_for_model("code-search-ada-code-001"),
        Some("r50k_base")
    );
    assert_eq!(encoding_for_model("foo"), None);
}

#[test]
fn tokens_t0() {
    let bpe = cl100k_base().unwrap();
    let tokens = bpe.encode_with_special_tokens("This is an example");

    let actual = tokens.len();
    let expected = 4;

    assert_eq!(actual, expected);
}

#[test]
fn tokens_t1() {
    let s = "This is a test string to see how it tokenizes.";
    let tokens = tokenize(s, Tokenizer::CL100KBase).unwrap();

    let actual = tokens.len();
    let expected = 12;

    assert_eq!(actual, expected);

    let expected_tokens = vec![
        2028, 374, 264, 1296, 925, 311, 1518, 1268, 433, 4037, 4861, 13,
    ];
    assert_eq!(tokens, expected_tokens)
}

#[test]
fn tokens_t2() {
    let s = "The one who shuts his ears to the cry of the poor will himself also call out and not be answered.";
    let tokens = tokenize(s, Tokenizer::CL100KBase).unwrap();

    let actual = tokens.len();
    let expected = 22;

    assert_eq!(actual, expected);

    let expected_tokens = vec![
        791, 832, 889, 89678, 813, 25212, 311, 279, 16106, 315, 279, 8009, 690, 5678, 1101,
        1650, 704, 323, 539, 387, 19089, 13,
    ];

    assert_eq!(tokens, expected_tokens)
}

#[test]
fn resolve_model_or_encoding_name() {
    assert_eq!(resolve_tokenizer("gpt-4-0314"), Some(Tokenizer::CL100KBase));
    assert_eq!(resolve_tokenizer("p50k_edit"), Some(Tokenizer::P50KEdit));
    assert_eq!(resolve_tokenizer("davinci"), Some(Tokenizer::R50KBase));
    assert_eq!(resolve_tokenizer("gpt2"), None);
    assert_eq!(resolve_tokenizer("foo"), None);
    assert_eq!(encoding_for_model("gpt-3.5-turbo-0301"), encoding_for_model("gpt-3.5-turbo"));
}

#[test]
fn registry_builds_once() {
    let mut registry = oairs::registry::EncodingRegistry::new();
    let first = registry.encode_ordinary(Tokenizer::CL100KBase, "This is an example").unwrap();
    let second = registry.encode_ordinary(Tokenizer::CL100KBase, "This is an example").unwrap();
    assert_eq!(first, second);
    assert_eq!(first.len(), 4);
    let special = registry
        .encode_with_special_tokens(Tokenizer::CL100KBase, "<|endoftext|>")
        .unwrap();
    assert_eq!(special, vec![100257]);
}
