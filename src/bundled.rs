//! The vocabularies that ship with the `tiktoken-rs` crate, read into this
//! library's engine.
use crate::core_bpe::{entries_ids, entries_map, entry_views, tables_valid, CoreBpe, VocabularyError};
use crate::engine::{model_wf, BpeModel};
use crate::split::pattern_compiles;
use crate::tokenizer::Tokenizer;
use vstd::prelude::*;

verus! {

#[verifier::external_type_specification]
#[verifier::external_body]
pub struct ExTiktokenCoreBpe(tiktoken_rs::CoreBPE);

/// The tables of one bundled vocabulary, as the outside crate builds them.
struct BundledTables {
    kind: Tokenizer,
    tables: tiktoken_rs::CoreBPE,
}

/// Every id below this bound is held by the bundled tables of `kind`, as
/// an ordinary or a special token: the r50k_base file ranks 0..=50255 with
/// 50256 special; the p50k_base file ranks 0..=50280 but 50256, which is
/// special; p50k_edit adds the specials 50281..=50283; the cl100k_base file
/// ranks 0..=100255.
pub open spec fn id_bound(kind: Tokenizer) -> nat {
    match kind {
        Tokenizer::R50KBase => 50257,
        Tokenizer::P50KBase => 50281,
        Tokenizer::P50KEdit => 50284,
        Tokenizer::CL100KBase => 100256,
    }
}

/// The bytes of id `id` in the bundled vocabulary named `name`; they depend
/// on the name and the id alone.
pub uninterp spec fn bundled_bytes(name: Seq<char>, id: u32) -> Seq<u8>;

/// `id` is one of the special ids of `kind`.
pub open spec fn is_special_of(kind: Tokenizer, id: int) -> bool {
    exists|j: int| 0 <= j < kind.special_ids().len() && kind.special_ids()[j].1 == id
}

/// The ordinary entries of the bundled vocabulary of `kind` with ids below
/// `n`, by increasing id.
pub open spec fn bundled_entries_below(kind: Tokenizer, n: int) -> Seq<(Seq<u8>, usize)>
    decreases n,
{
    if n <= 0 {
        Seq::empty()
    } else if is_special_of(kind, n - 1) {
        bundled_entries_below(kind, n - 1)
    } else {
        bundled_entries_below(kind, n - 1).push((bundled_bytes(kind.spec_str(), (n - 1) as u32), (n - 1) as usize))
    }
}

/// The ordinary entries of the bundled vocabulary of `kind`.
pub open spec fn bundled_entries(kind: Tokenizer) -> Seq<(Seq<u8>, usize)> {
    bundled_entries_below(kind, id_bound(kind) as int)
}

/// The engine model of the bundled vocabulary of `kind`.
pub open spec fn bundled_model(kind: Tokenizer) -> BpeModel {
    BpeModel {
        ranks: entries_map(bundled_entries(kind)),
        ids: entries_ids(bundled_entries(kind)),
        specials: kind.special_table(),
        pattern: kind.pattern(),
    }
}

/// The bundled vocabulary of `kind` passes the engine's checks, its pattern
/// compiles, and its model is consistent: exactly when it loads.
pub open spec fn bundled_loads(kind: Tokenizer) -> bool {
    &&& tables_valid(bundled_entries(kind), kind.special_table())
    &&& pattern_compiles(kind.pattern())
    &&& model_wf(bundled_model(kind))
}

/// Relies on tiktoken_rs::r50k_base: builds the bundled r50k_base tables.
#[verifier::external_body]
fn bundled_r50k() -> (r: Option<BundledTables>)
    ensures
        r matches Some(t) ==> t.kind == Tokenizer::R50KBase,
        r is Some,
{
    tiktoken_rs::r50k_base().ok().map(|tables| BundledTables { kind: Tokenizer::R50KBase, tables })
}

/// Relies on tiktoken_rs::p50k_base: builds the bundled p50k_base tables.
#[verifier::external_body]
fn bundled_p50k() -> (r: Option<BundledTables>)
    ensures
        r matches Some(t) ==> t.kind == Tokenizer::P50KBase,
        r is Some,
{
    tiktoken_rs::p50k_base().ok().map(|tables| BundledTables { kind: Tokenizer::P50KBase, tables })
}

/// Relies on tiktoken_rs::p50k_edit: builds the bundled p50k_edit tables.
#[verifier::external_body]
fn bundled_p50k_edit() -> (r: Option<BundledTables>)
    ensures
        r matches Some(t) ==> t.kind == Tokenizer::P50KEdit,
        r is Some,
{
    tiktoken_rs::p50k_edit().ok().map(|tables| BundledTables { kind: Tokenizer::P50KEdit, tables })
}

/// Relies on tiktoken_rs::cl100k_base: builds the bundled cl100k_base tables.
#[verifier::external_body]
fn bundled_cl100k() -> (r: Option<BundledTables>)
    ensures
        r matches Some(t) ==> t.kind == Tokenizer::CL100KBase,
        r is Some,
{
    tiktoken_rs::cl100k_base().ok().map(|tables| BundledTables { kind: Tokenizer::CL100KBase, tables })
}

/// Relies on tiktoken_rs::CoreBPE::_decode_native_and_split: the bytes of
/// one id of the bundled tables. It panics on an id that the tables do not
/// hold, which `id_bound` rules out.
#[verifier::external_body]
fn bundled_token_bytes(t: &BundledTables, id: u32) -> (r: Vec<u8>)
    requires
        (id as nat) < id_bound(t.kind),
    ensures
        r@ == bundled_bytes(t.kind.spec_str(), id),
{
    t.tables._decode_native_and_split(vec![id]).next().unwrap_or_default()
}

fn bundled_tables(kind: Tokenizer) -> (r: Option<BundledTables>)
    ensures
        r matches Some(t) ==> t.kind == kind,
        r is Some,
{
    match kind {
        Tokenizer::R50KBase => bundled_r50k(),
        Tokenizer::P50KBase => bundled_p50k(),
        Tokenizer::P50KEdit => bundled_p50k_edit(),
        Tokenizer::CL100KBase => bundled_cl100k(),
    }
}

fn id_bound_of(kind: Tokenizer) -> (r: u32)
    ensures
        r as nat == id_bound(kind),
{
    match kind {
        Tokenizer::R50KBase => 50257,
        Tokenizer::P50KBase => 50281,
        Tokenizer::P50KEdit => 50284,
        Tokenizer::CL100KBase => 100256,
    }
}

/// Whether `id` is one of the special ids of `kind`.
fn is_special_id(kind: Tokenizer, id: usize) -> (r: bool)
    ensures
        r == is_special_of(kind, id as int),
{
    let ids = kind.special_id_list();
    let mut j: usize = 0;
    while j < ids.len()
        invariant
            ids@ == kind.special_ids(),
            j <= ids@.len(),
            forall|q: int| 0 <= q < j ==> (#[trigger] ids@[q]).1 != id,
        decreases ids@.len() - j,
    {
        if ids[j].1 == id {
            return true;
        }
        j = j + 1;
    }
    false
}

/// The ordinary tokens of the bundled tables, with their ranks; the special
/// ids are left out.
fn ordinary_entries(t: &BundledTables) -> (r: Vec<(Vec<u8>, usize)>)
    ensures
        entry_views(r@) == bundled_entries(t.kind),
{
    let bound = id_bound_of(t.kind);
    let mut out: Vec<(Vec<u8>, usize)> = Vec::new();
    let mut id: u32 = 0;
    while id < bound
        invariant
            bound as nat == id_bound(t.kind),
            id <= bound,
            entry_views(out@) == bundled_entries_below(t.kind, id as int),
        decreases bound - id,
    {
        if !is_special_id(t.kind, id as usize) {
            let bytes = bundled_token_bytes(t, id);
            let ghost before = out@;
            out.push((bytes, id as usize));
            assert(entry_views(out@) =~= entry_views(before).push((bundled_bytes(t.kind.spec_str(), id), id as usize)));
        }
        id = id + 1;
    }
    out
}

/// Builds the engine of a bundled vocabulary.
pub fn load_tables(kind: Tokenizer) -> (r: Result<CoreBpe, VocabularyError>)
    ensures
        r is Ok <==> bundled_loads(kind),
        r matches Ok(b) ==> b.wf() && b@ == bundled_model(kind),
{
    let tables = match bundled_tables(kind) {
        Some(t) => t,
        None => {
            return Err(VocabularyError::Unavailable);
        },
    };
    let entries = ordinary_entries(&tables);
    let specials = kind.special_entries();
    let r = CoreBpe::new(entries, specials, kind.pattern_str());
    proof {
        if r is Ok {
            r->Ok_0.lemma_wf();
            assert(r->Ok_0@ == bundled_model(kind));
        }
    }
    r
}

/// The r50k_base engine (also known as `gpt2`), for GPT-3 models like `davinci`.
pub fn r50k_base() -> (r: Result<CoreBpe, VocabularyError>)
    ensures
        r is Ok <==> bundled_loads(Tokenizer::R50KBase),
        r matches Ok(b) ==> b.wf() && b@ == bundled_model(Tokenizer::R50KBase),
{
    load_tables(Tokenizer::R50KBase)
}

/// The p50k_base engine, for code models, `text-davinci-002` and `text-davinci-003`.
pub fn p50k_base() -> (r: Result<CoreBpe, VocabularyError>)
    ensures
        r is Ok <==> bundled_loads(Tokenizer::P50KBase),
        r matches Ok(b) ==> b.wf() && b@ == bundled_model(Tokenizer::P50KBase),
{
    load_tables(Tokenizer::P50KBase)
}

/// The p50k_edit engine, for edit models.
pub fn p50k_edit() -> (r: Result<CoreBpe, VocabularyError>)
    ensures
        r is Ok <==> bundled_loads(Tokenizer::P50KEdit),
        r matches Ok(b) ==> b.wf() && b@ == bundled_model(Tokenizer::P50KEdit),
{
    load_tables(Tokenizer::P50KEdit)
}

/// The cl100k_base engine, for chat models and `text-embedding-ada-002`.
pub fn cl100k_base() -> (r: Result<CoreBpe, VocabularyError>)
    ensures
        r is Ok <==> bundled_loads(Tokenizer::CL100KBase),
        r matches Ok(b) ==> b.wf() && b@ == bundled_model(Tokenizer::CL100KBase),
{
    load_tables(Tokenizer::CL100KBase)
}

} // verus!
