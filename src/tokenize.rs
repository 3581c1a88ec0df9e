//! Tokenizing text with one of the bundled encodings.
use crate::bundled::{bundled_loads, bundled_model, load_tables};
use crate::core_bpe::CoreBpe;
use crate::engine::{
    all_known, all_ordinary, decoded, encode_from, law_encoded_round_trip, law_special_token_recognised,
    lemma_ordinary_round_trip, model_wf, occurs_at, ordinary_tokens,
};
use crate::error::{ErrorType, OairsError};
use crate::tokenizer::{mask_for, validate_special, SpecialToken, SpecialTokens, Tokenizer};
use vstd::prelude::*;
use vstd::string::{StringExecFns, StringSliceAdditionalSpecFns};

verus! {

/// Loads the engine of an encoding.
pub fn load_bpe(tokenizer: Tokenizer) -> (r: Result<CoreBpe, OairsError>)
    ensures
        r is Ok <==> bundled_loads(tokenizer),
        r matches Ok(b) ==> b.wf() && b@ == bundled_model(tokenizer),
        r matches Err(e) ==> e.error_type@ == ErrorType::Tokenizer.spec_str() && (e.param matches Some(
            p,
        ) && p@ == tokenizer.spec_str()),
{
    match load_tables(tokenizer) {
        Ok(bpe) => Ok(bpe),
        Err(e) => {
            let mut message = "Failed to load tokenizer: ".to_owned();
            message.append(e.describe());
            Err(OairsError::new(message, ErrorType::Tokenizer, Some(tokenizer.to_str().to_owned()), None))
        },
    }
}

/// Encodes `text` as ordinary text: text that matches a special token is
/// encoded like any other text.
pub fn tokenize(text: &str, tokenizer: Tokenizer) -> (r: Result<Vec<usize>, OairsError>)
    ensures
        r is Ok <==> bundled_loads(tokenizer),
        r matches Ok(t) ==> t@ == ordinary_tokens(bundled_model(tokenizer), text.spec_bytes()),
        r matches Err(e) ==> e.error_type@ == ErrorType::Tokenizer.spec_str(),
{
    let bpe = load_bpe(tokenizer)?;
    let tokens = bpe.encode_ordinary(text);
    Ok(tokens)
}

/// Which of the encoding's special tokens `allowed` holds, in the order of
/// the encoding's special tokens.
fn special_mask(tokenizer: Tokenizer, allowed: &SpecialTokens) -> (r: Vec<bool>)
    ensures
        r@ == mask_for(tokenizer, allowed@),
{
    let ids = tokenizer.special_id_list();
    let mut mask: Vec<bool> = Vec::new();
    let mut i: usize = 0;
    while i < ids.len()
        invariant
            ids@ == tokenizer.special_ids(),
            i <= ids@.len(),
            mask@ =~= mask_for(tokenizer, allowed@).subrange(0, i as int),
        decreases ids@.len() - i,
    {
        mask.push(allowed.contains(ids[i].0));
        i = i + 1;
        assert(mask@ =~= mask_for(tokenizer, allowed@).subrange(0, i as int));
    }
    mask
}

/// The message of the error for a special token that an encoding does not
/// recognise.
pub open spec fn unrecognized_message(token: SpecialToken, tokenizer: Tokenizer) -> Seq<char> {
    "Special token "@ + token.spec_name() + " is not recognized by tokenizer "@ + tokenizer.spec_name() + "."@
}

/// Encodes `text`, giving each special token of `allowed_special` its own
/// id. Fails before any encoding when the encoding does not recognise one of
/// the requested special tokens.
pub fn tokenize_custom(text: &str, tokenizer: Tokenizer, allowed_special: SpecialTokens) -> (r: Result<
    Vec<usize>,
    OairsError,
>)
    ensures
        r is Ok <==> allowed_special@.subset_of(tokenizer.recognized()) && bundled_loads(tokenizer),
        r matches Ok(t) ==> t@ == encode_from(
            bundled_model(tokenizer),
            text.spec_bytes(),
            0,
            mask_for(tokenizer, allowed_special@),
        ),
        !allowed_special@.subset_of(tokenizer.recognized()) ==> (r matches Err(e) && e.code is None
            && (e.param matches Some(p) && p@ == tokenizer.spec_str()) && exists|t: SpecialToken|
            allowed_special@.contains(t) && !tokenizer.recognized().contains(t) && e.message@
                == unrecognized_message(t, tokenizer)),
        r matches Err(e) ==> e.error_type@ == ErrorType::Tokenizer.spec_str(),
{
    if let Err(token) = validate_special(tokenizer, &allowed_special) {
        let mut message = "Special token ".to_owned();
        message.append(token.name());
        message.append(" is not recognized by tokenizer ");
        message.append(tokenizer.name());
        message.append(".");
        assert(message@ =~= unrecognized_message(token, tokenizer));
        let e = OairsError::new(message, ErrorType::Tokenizer, Some(tokenizer.to_str().to_owned()), None);
        assert(allowed_special@.contains(token) && !tokenizer.recognized().contains(token) && e.message@
            == unrecognized_message(token, tokenizer));
        return Err(e);
    }
    let bpe = load_bpe(tokenizer)?;
    let mask = special_mask(tokenizer, &allowed_special);
    proof {
        bpe.lemma_wf();
    }
    assert(mask@.len() == bpe@.specials.len());
    let tokens = bpe.encode_masked(text, &mask);
    Ok(tokens)
}

/// Encodes `text` with every special token that the encoding recognises
/// given its own id.
pub fn tokenize_with_special(text: &str, tokenizer: Tokenizer) -> (r: Result<Vec<usize>, OairsError>)
    ensures
        r is Ok <==> bundled_loads(tokenizer),
        r matches Ok(t) ==> t@ == encode_from(
            bundled_model(tokenizer),
            text.spec_bytes(),
            0,
            mask_for(tokenizer, tokenizer.recognized()),
        ),
        r matches Err(e) ==> e.error_type@ == ErrorType::Tokenizer.spec_str(),
{
    let bpe = load_bpe(tokenizer)?;
    let recognized = tokenizer.recognized_special();
    let mask = special_mask(tokenizer, &recognized);
    proof {
        bpe.lemma_wf();
    }
    assert(mask@.len() == bpe@.specials.len());
    let tokens = bpe.encode_masked(text, &mask);
    Ok(tokens)
}

/// Every special token of an encoding is recognised by it, so recognising
/// all of them allows each one.
pub proof fn law_all_recognized_allowed(tokenizer: Tokenizer)
    ensures
        mask_for(tokenizer, tokenizer.recognized()) == Seq::new(tokenizer.special_ids().len(), |j: int| true),
{
    assert(mask_for(tokenizer, tokenizer.recognized()) =~= Seq::new(
        tokenizer.special_ids().len(),
        |j: int| true,
    ));
}

/// Round trip through `tokenize`: the ordinary tokens of any text in a
/// bundled encoding that loads decode back to the text's bytes; every id is
/// an ordinary one, so no special id appears and decoding cannot fail.
pub proof fn law_tokenize_round_trip(tokenizer: Tokenizer, text: Seq<u8>)
    requires
        bundled_loads(tokenizer),
        text.len() <= usize::MAX,
    ensures
        decoded(bundled_model(tokenizer), ordinary_tokens(bundled_model(tokenizer), text)) == text,
        all_ordinary(bundled_model(tokenizer), ordinary_tokens(bundled_model(tokenizer), text)),
        all_known(bundled_model(tokenizer), ordinary_tokens(bundled_model(tokenizer), text)),
        forall|j: int|
            0 <= j < bundled_model(tokenizer).specials.len() ==> !ordinary_tokens(bundled_model(tokenizer), text).contains(
                #[trigger] bundled_model(tokenizer).specials[j].1,
            ),
{
    let m = bundled_model(tokenizer);
    lemma_ordinary_round_trip(m, text);
    let t = ordinary_tokens(m, text);
    assert(all_known(m, t)) by {
        assert forall|i: int| 0 <= i < t.len() implies crate::engine::known(m, #[trigger] t[i]) by {
            assert(m.ids.contains_key(t[i]));
        }
    }
    assert forall|j: int| 0 <= j < m.specials.len() implies !t.contains(#[trigger] m.specials[j].1) by {
        if t.contains(m.specials[j].1) {
            let i = choose|i: int| 0 <= i < t.len() && t[i] == m.specials[j].1;
            assert(m.ids.contains_key(t[i]));
        }
    }
}

/// Round trip through `tokenize_custom` and `tokenize_with_special`:
/// whatever special tokens are allowed, the tokens decode back to the text's
/// bytes and every id is known.
pub proof fn law_tokenize_custom_round_trip(tokenizer: Tokenizer, text: Seq<u8>, allowed: Set<SpecialToken>)
    requires
        bundled_loads(tokenizer),
        text.len() <= usize::MAX,
    ensures
        decoded(
            bundled_model(tokenizer),
            encode_from(bundled_model(tokenizer), text, 0, mask_for(tokenizer, allowed)),
        ) == text,
        all_known(
            bundled_model(tokenizer),
            encode_from(bundled_model(tokenizer), text, 0, mask_for(tokenizer, allowed)),
        ),
{
    law_encoded_round_trip(bundled_model(tokenizer), text, mask_for(tokenizer, allowed));
}

/// A sentinel between two texts: with the sentinel allowed and no allowed
/// sentinel starting earlier, `tokenize_custom` gives the ordinary tokens of
/// the text before, the sentinel's own id, then the encoding of the rest; the
/// id is not among the ordinary tokens of the sentinel's text.
pub proof fn law_tokenize_sentinel(
    tokenizer: Tokenizer,
    before: Seq<u8>,
    j: int,
    after: Seq<u8>,
    allowed: Set<SpecialToken>,
)
    requires
        bundled_loads(tokenizer),
        0 <= j < tokenizer.special_ids().len(),
        allowed.contains(tokenizer.special_ids()[j].0),
        (before + bundled_model(tokenizer).specials[j].0 + after).len() <= usize::MAX,
        forall|p: int, i: int|
            0 <= p < before.len() && 0 <= i < tokenizer.special_ids().len() && allowed.contains(
                tokenizer.special_ids()[i].0,
            ) ==> !#[trigger] occurs_at(
                before + bundled_model(tokenizer).specials[j].0 + after,
                p,
                bundled_model(tokenizer).specials[i].0,
            ),
        forall|i: int|
            0 <= i < j && allowed.contains(tokenizer.special_ids()[i].0) ==> !occurs_at(
                before + bundled_model(tokenizer).specials[j].0 + after,
                before.len() as int,
                #[trigger] bundled_model(tokenizer).specials[i].0,
            ),
    ensures
        encode_from(
            bundled_model(tokenizer),
            before + bundled_model(tokenizer).specials[j].0 + after,
            0,
            mask_for(tokenizer, allowed),
        ) == ordinary_tokens(bundled_model(tokenizer), before) + seq![bundled_model(tokenizer).specials[j].1]
            + encode_from(
            bundled_model(tokenizer),
            before + bundled_model(tokenizer).specials[j].0 + after,
            (before.len() + bundled_model(tokenizer).specials[j].0.len()) as int,
            mask_for(tokenizer, allowed),
        ),
        !ordinary_tokens(bundled_model(tokenizer), bundled_model(tokenizer).specials[j].0).contains(
            bundled_model(tokenizer).specials[j].1,
        ),
{
    let m = bundled_model(tokenizer);
    let mask = mask_for(tokenizer, allowed);
    assert(model_wf(m));
    law_special_token_recognised(m, before, j, after, mask);
}

} // verus!
