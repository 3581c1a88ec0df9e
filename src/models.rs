//! Which encoding a model uses.
use crate::table::range_eq;
use crate::tokenizer::Tokenizer;
use vstd::prelude::*;
use vstd::string::StringSliceAdditionalSpecFns;
use vstd::utf8::{encode_utf8, encode_utf8_decode_utf8};

verus! {

/// Models and the encodings they use, looked up by exact name.
pub open spec fn model_table() -> Seq<(Seq<char>, Seq<char>)> {
    seq![
        ("gpt-3.5-turbo"@, "cl100k_base"@),
        ("gpt-4"@, "cl100k_base"@),
        ("gpt-3.5-turbo-"@, "cl100k_base"@),
        ("gpt-4-"@, "cl100k_base"@),
        ("text-davinci-003"@, "p50k_base"@),
        ("text-davinci-002"@, "p50k_base"@),
        ("text-davinci-001"@, "r50k_base"@),
        ("text-curie-001"@, "r50k_base"@),
        ("text-babbage-001"@, "r50k_base"@),
        ("text-ada-001"@, "r50k_base"@),
        ("davinci"@, "r50k_base"@),
        ("curie"@, "r50k_base"@),
        ("babbage"@, "r50k_base"@),
        ("ada"@, "r50k_base"@),
        ("code-davinci-002"@, "p50k_base"@),
        ("code-davinci-001"@, "p50k_base"@),
        ("code-cushman-002"@, "p50k_base"@),
        ("code-cushman-001"@, "p50k_base"@),
        ("davinci-codex"@, "p50k_base"@),
        ("cushman-codex"@, "p50k_base"@),
        ("text-davinci-edit-001"@, "p50k_edit"@),
        ("code-davinci-edit-001"@, "p50k_edit"@),
        ("text-embedding-ada-002"@, "cl100k_base"@),
        ("text-similarity-davinci-001"@, "r50k_base"@),
        ("text-similarity-curie-001"@, "r50k_base"@),
        ("text-similarity-babbage-001"@, "r50k_base"@),
        ("text-similarity-ada-001"@, "r50k_base"@),
        ("text-search-davinci-doc-001"@, "r50k_base"@),
        ("text-search-curie-doc-001"@, "r50k_base"@),
        ("text-search-babbage-doc-001"@, "r50k_base"@),
        ("text-search-ada-doc-001"@, "r50k_base"@),
        ("code-search-babbage-code-001"@, "r50k_base"@),
        ("code-search-ada-code-001"@, "r50k_base"@),
        ("gpt2"@, "gpt2"@),
    ]
}

/// Model-name prefixes and the encodings of the models they start, tried in
/// this order after the exact names.
pub open spec fn prefix_table() -> Seq<(Seq<char>, Seq<char>)> {
    seq![("gpt-3.5-turbo-"@, "cl100k_base"@), ("gpt-4-"@, "cl100k_base"@)]
}

fn model_entries() -> (r: Vec<(&'static str, &'static str)>)
    ensures
        r@.map_values(|e: (&'static str, &'static str)| (e.0@, e.1@)) == model_table(),
{
    let r = vec![
        ("gpt-3.5-turbo", "cl100k_base"),
        ("gpt-4", "cl100k_base"),
        ("gpt-3.5-turbo-", "cl100k_base"),
        ("gpt-4-", "cl100k_base"),
        ("text-davinci-003", "p50k_base"),
        ("text-davinci-002", "p50k_base"),
        ("text-davinci-001", "r50k_base"),
        ("text-curie-001", "r50k_base"),
        ("text-babbage-001", "r50k_base"),
        ("text-ada-001", "r50k_base"),
        ("davinci", "r50k_base"),
        ("curie", "r50k_base"),
        ("babbage", "r50k_base"),
        ("ada", "r50k_base"),
        ("code-davinci-002", "p50k_base"),
        ("code-davinci-001", "p50k_base"),
        ("code-cushman-002", "p50k_base"),
        ("code-cushman-001", "p50k_base"),
        ("davinci-codex", "p50k_base"),
        ("cushman-codex", "p50k_base"),
        ("text-davinci-edit-001", "p50k_edit"),
        ("code-davinci-edit-001", "p50k_edit"),
        ("text-embedding-ada-002", "cl100k_base"),
        ("text-similarity-davinci-001", "r50k_base"),
        ("text-similarity-curie-001", "r50k_base"),
        ("text-similarity-babbage-001", "r50k_base"),
        ("text-similarity-ada-001", "r50k_base"),
        ("text-search-davinci-doc-001", "r50k_base"),
        ("text-search-curie-doc-001", "r50k_base"),
        ("text-search-babbage-doc-001", "r50k_base"),
        ("text-search-ada-doc-001", "r50k_base"),
        ("code-search-babbage-code-001", "r50k_base"),
        ("code-search-ada-code-001", "r50k_base"),
        ("gpt2", "gpt2"),
    ];
    assert(r@.map_values(|e: (&'static str, &'static str)| (e.0@, e.1@)) =~= model_table());
    r
}

fn prefix_entries() -> (r: Vec<(&'static str, &'static str)>)
    ensures
        r@.map_values(|e: (&'static str, &'static str)| (e.0@, e.1@)) == prefix_table(),
{
    let r = vec![("gpt-3.5-turbo-", "cl100k_base"), ("gpt-4-", "cl100k_base")];
    assert(r@.map_values(|e: (&'static str, &'static str)| (e.0@, e.1@)) =~= prefix_table());
    r
}

/// Whether two strings are equal.
pub fn str_eq(a: &str, b: &str) -> (r: bool)
    ensures
        r == (a@ == b@),
{
    let x = a.as_bytes();
    let y = b.as_bytes();
    assert(x@.subrange(0, x@.len() as int) =~= x@);
    let r = range_eq(x, 0, x.len(), y);
    proof {
        encode_utf8_decode_utf8(a@);
        encode_utf8_decode_utf8(b@);
    }
    r
}

/// Whether `s` starts with `prefix`, byte for byte.
pub fn starts_with(s: &str, prefix: &str) -> (r: bool)
    ensures
        r == (prefix.spec_bytes().len() <= s.spec_bytes().len() && s.spec_bytes().subrange(
            0,
            prefix.spec_bytes().len() as int,
        ) == prefix.spec_bytes()),
{
    let x = s.as_bytes();
    let p = prefix.as_bytes();
    if p.len() > x.len() {
        return false;
    }
    range_eq(x, 0, p.len(), p)
}

/// The encoding of the first entry, from `i` on, whose model is `name`.
pub open spec fn exact_match(table: Seq<(Seq<char>, Seq<char>)>, name: Seq<char>, i: int) -> Option<Seq<char>>
    decreases table.len() - i,
{
    if i < 0 || i >= table.len() {
        None
    } else if table[i].0 == name {
        Some(table[i].1)
    } else {
        exact_match(table, name, i + 1)
    }
}

/// The encoding of the first entry, from `i` on, whose prefix starts `name`.
pub open spec fn prefix_match(table: Seq<(Seq<char>, Seq<char>)>, name: Seq<u8>, i: int) -> Option<Seq<char>>
    decreases table.len() - i,
{
    if i < 0 || i >= table.len() {
        None
    } else {
        let p = encode_utf8(table[i].0);
        if p.len() <= name.len() && name.subrange(0, p.len() as int) == p {
            Some(table[i].1)
        } else {
            prefix_match(table, name, i + 1)
        }
    }
}

/// The encoding of a model: by its exact name first, then by the first
/// prefix of `prefix_table` that starts it.
pub open spec fn model_encoding(name: &str) -> Option<Seq<char>> {
    match exact_match(model_table(), name@, 0) {
        Some(e) => Some(e),
        None => prefix_match(prefix_table(), name.spec_bytes(), 0),
    }
}

/// Returns the name of the encoding a model uses, if the model is known.
pub fn encoding_for_model(model_name: &str) -> (r: Option<&'static str>)
    ensures
        r matches Some(e) ==> model_encoding(model_name) == Some(e@),
        r is None ==> model_encoding(model_name) is None,
{
    let models = model_entries();
    let ghost mt = model_table();
    let mut i: usize = 0;
    while i < models.len()
        invariant
            models@.map_values(|e: (&'static str, &'static str)| (e.0@, e.1@)) == mt,
            mt == model_table(),
            i <= models@.len(),
            exact_match(mt, model_name@, 0) == exact_match(mt, model_name@, i as int),
        decreases models@.len() - i,
    {
        assert(mt[i as int] == (models@[i as int].0@, models@[i as int].1@));
        if str_eq(models[i].0, model_name) {
            return Some(models[i].1);
        }
        i = i + 1;
    }
    let prefixes = prefix_entries();
    let ghost pt = prefix_table();
    let mut j: usize = 0;
    while j < prefixes.len()
        invariant
            prefixes@.map_values(|e: (&'static str, &'static str)| (e.0@, e.1@)) == pt,
            pt == prefix_table(),
            exact_match(model_table(), model_name@, 0) is None,
            j <= prefixes@.len(),
            prefix_match(pt, model_name.spec_bytes(), 0) == prefix_match(pt, model_name.spec_bytes(), j as int),
        decreases prefixes@.len() - j,
    {
        assert(pt[j as int] == (prefixes@[j as int].0@, prefixes@[j as int].1@));
        if starts_with(model_name, prefixes[j].0) {
            return Some(prefixes[j].1);
        }
        j = j + 1;
    }
    None
}

/// The bundled encoding for a model name or an encoding name: the encoding
/// of that name, else the encoding the model uses; `None` when there is no
/// such name or model, or its encoding is not bundled.
pub fn resolve_tokenizer(name: &str) -> (r: Option<Tokenizer>)
    ensures
        r matches Some(t) ==> t.spec_str() == name@ || model_encoding(name) == Some(t.spec_str()),
        r is None ==> forall|t: Tokenizer|
            #[trigger] t.spec_str() != name@ && model_encoding(name) != Some(t.spec_str()),
{
    if let Some(t) = Tokenizer::from_encoding_name(name) {
        return Some(t);
    }
    match encoding_for_model(name) {
        Some(e) => Tokenizer::from_encoding_name(e),
        None => None,
    }
}

} // verus!
