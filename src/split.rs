//! Pre-splitting of text into pieces by a compiled pattern.
use vstd::prelude::*;

verus! {

#[verifier::external_type_specification]
#[verifier::external_body]
pub struct ExRegex(fancy_regex::Regex);

#[verifier::external_type_specification]
#[verifier::external_body]
pub struct ExRegexError(fancy_regex::Error);

/// The byte ranges that `pattern` matches in `text`, in order; none when
/// `text` is not UTF-8.
pub uninterp spec fn regex_spans(pattern: Seq<char>, text: Seq<u8>) -> Seq<(usize, usize)>;

/// Whether `pattern` compiles; this depends on the pattern alone.
pub uninterp spec fn pattern_compiles(pattern: Seq<char>) -> bool;

/// Relies on fancy_regex::Regex::new: compiles a pattern or reports why not.
#[verifier::external_body]
fn compile_pattern(pattern: &str) -> (r: Result<fancy_regex::Regex, fancy_regex::Error>)
    ensures
        r is Ok == pattern_compiles(pattern@),
{
    fancy_regex::Regex::new(pattern)
}

/// A pattern together with its compiled form. The compiled form is only
/// ever made from `pattern` by `Splitter::new`.
pub struct Splitter {
    pattern: String,
    compiled: fancy_regex::Regex,
}

impl Splitter {
    pub closed spec fn pattern(&self) -> Seq<char> {
        self.pattern@
    }

    /// Compiles `pattern`; `None` when the pattern is malformed.
    pub fn new(pattern: &str) -> (r: Option<Splitter>)
        ensures
            r matches Some(s) ==> s.pattern() == pattern@,
            r is Some == pattern_compiles(pattern@),
    {
        match compile_pattern(pattern) {
            Ok(compiled) => Some(Splitter { pattern: pattern.to_owned(), compiled }),
            Err(_) => None,
        }
    }

    /// The byte ranges of the pattern's matches in `text`.
    pub fn spans(&self, text: &[u8]) -> (r: Vec<(usize, usize)>)
        ensures
            r@ == regex_spans(self.pattern(), text@),
    {
        find_spans(self, text)
    }
}

/// Relies on fancy_regex::Regex::find_iter: the successive matches of the
/// compiled pattern in the text, as byte ranges; the result depends on the
/// pattern and the text alone. A match that fails ends the list.
#[verifier::external_body]
fn find_spans(splitter: &Splitter, text: &[u8]) -> (r: Vec<(usize, usize)>)
    ensures
        r@ == regex_spans(splitter.pattern(), text@),
{
    match std::str::from_utf8(text) {
        Ok(s) => splitter.compiled.find_iter(s).map_while(|m| m.ok()).map(|m| (m.start(), m.end())).collect(),
        Err(_) => Vec::new(),
    }
}

} // verus!
