//! Incremental extraction of fields from a buffered server-sent event
//! stream. Every parser returns `(remaining, output)`; a missing delimiter is
//! `ParseError::Incomplete`: the caller buffers more bytes and retries.
use vstd::prelude::*;
use vstd::string::StringSliceAdditionalSpecFns;
use vstd::utf8::encode_utf8;

verus! {

/// Why a parser produced nothing.
#[derive(Debug, Clone, Copy, PartialEq, Eq, Structural)]
pub enum ParseError {
    /// The input ends before what the parser looks for: more bytes are needed.
    Incomplete,
    /// The input holds something other than the expected text.
    Mismatch,
}

impl ParseError {
    pub open spec fn spec_message(self) -> Seq<char> {
        match self {
            ParseError::Incomplete => "Parsing requires more data"@,
            ParseError::Mismatch => "Parsing Error: Tag"@,
        }
    }

    /// A description of the error.
    pub fn to_string(&self) -> (r: String)
        ensures
            r@ == self.spec_message(),
    {
        match self {
            ParseError::Incomplete => "Parsing requires more data".to_owned(),
            ParseError::Mismatch => "Parsing Error: Tag".to_owned(),
        }
    }
}

/// `t` occurs in `s` at `i`.
pub open spec fn occurs(s: Seq<u8>, i: int, t: Seq<u8>) -> bool {
    0 <= i && i + t.len() <= s.len() && s.subrange(i, i + t.len()) == t
}

/// The first position from `i` on where `t` occurs in `s`.
pub open spec fn find_from(s: Seq<u8>, t: Seq<u8>, i: int) -> Option<int>
    decreases s.len() + 1 - i,
{
    if i < 0 || i + t.len() > s.len() {
        None
    } else if occurs(s, i, t) {
        Some(i)
    } else {
        find_from(s, t, i + 1)
    }
}

/// What a parser gives: `(remaining, output)` or an error.
pub type Parsed = Result<(Seq<u8>, Seq<u8>), ParseError>;

/// The bytes before the first occurrence of `t`, and the rest from there on.
pub open spec fn take_until_spec(s: Seq<u8>, t: Seq<u8>) -> Parsed {
    match find_from(s, t, 0) {
        None => Err(ParseError::Incomplete),
        Some(i) => Ok((s.subrange(i, s.len() as int), s.subrange(0, i))),
    }
}

/// `t` itself at the start of `s`, and the rest after it.
pub open spec fn tag_spec(s: Seq<u8>, t: Seq<u8>) -> Parsed {
    if s.len() >= t.len() {
        if s.subrange(0, t.len() as int) == t {
            Ok((s.subrange(t.len() as int, s.len() as int), t))
        } else {
            Err(ParseError::Mismatch)
        }
    } else if s == t.subrange(0, s.len() as int) {
        Err(ParseError::Incomplete)
    } else {
        Err(ParseError::Mismatch)
    }
}

/// Runs `second` on what `first` leaves.
pub open spec fn then_take_until(first: Parsed, t: Seq<u8>) -> Parsed {
    match first {
        Err(e) => Err(e),
        Ok(p) => take_until_spec(p.0, t),
    }
}

/// Runs a tag match on what `first` leaves.
pub open spec fn then_tag(first: Parsed, t: Seq<u8>) -> Parsed {
    match first {
        Err(e) => Err(e),
        Ok(p) => tag_spec(p.0, t),
    }
}

/// The view of a parser's result.
pub open spec fn parsed(r: Result<(&[u8], &[u8]), ParseError>) -> Parsed {
    match r {
        Ok(p) => Ok((p.0@, p.1@)),
        Err(e) => Err(e),
    }
}

/// Splits `input` before the first occurrence of `t`.
pub fn take_until<'a>(input: &'a [u8], t: &[u8]) -> (r: Result<(&'a [u8], &'a [u8]), ParseError>)
    ensures
        parsed(r) == take_until_spec(input@, t@),
{
    let n = input.len();
    let m = t.len();
    if m > n {
        return Err(ParseError::Incomplete);
    }
    let mut i: usize = 0;
    loop
        invariant
            n == input@.len(),
            m == t@.len(),
            m <= n,
            i <= n - m,
            find_from(input@, t@, 0) == find_from(input@, t@, i as int),
        decreases n - m - i,
    {
        if range_equal(input, i, t) {
            return Ok((&input[i..n], &input[0..i]));
        }
        if i == n - m {
            assert(find_from(input@, t@, i + 1) is None);
            return Err(ParseError::Incomplete);
        }
        i = i + 1;
    }
}

/// Whether `t` occurs in `s` at `i`.
fn range_equal(s: &[u8], i: usize, t: &[u8]) -> (r: bool)
    requires
        i + t@.len() <= s@.len(),
    ensures
        r == occurs(s@, i as int, t@),
{
    let sl = s.len();
    let mut k: usize = 0;
    while k < t.len()
        invariant
            sl == s@.len(),
            i + t@.len() <= s@.len(),
            k <= t@.len(),
            forall|q: int| 0 <= q < k ==> s@[i + q] == t@[q],
        decreases t@.len() - k,
    {
        if s[i + k] != t[k] {
            assert(s@.subrange(i as int, i + t@.len())[k as int] != t@[k as int]);
            return false;
        }
        k = k + 1;
    }
    assert(s@.subrange(i as int, i + t@.len()) =~= t@);
    true
}

/// Matches `t` at the start of `input`.
pub fn tag<'a>(input: &'a [u8], t: &[u8]) -> (r: Result<(&'a [u8], &'a [u8]), ParseError>)
    ensures
        parsed(r) == tag_spec(input@, t@),
{
    let n = input.len();
    let m = t.len();
    if n >= m {
        if range_equal(input, 0, t) {
            Ok((&input[m..n], &input[0..m]))
        } else {
            Err(ParseError::Mismatch)
        }
    } else {
        let mut k: usize = 0;
        while k < n
            invariant
                n == input@.len(),
                n < t@.len(),
                k <= n,
                forall|q: int| 0 <= q < k ==> input@[q] == t@[q],
            decreases n - k,
        {
            if input[k] != t[k] {
                assert(t@.subrange(0, n as int)[k as int] != input@[k as int]);
                return Err(ParseError::Mismatch);
            }
            k = k + 1;
        }
        assert(input@ =~= t@.subrange(0, n as int));
        Err(ParseError::Incomplete)
    }
}

fn take_until_after<'a>(first: Result<(&'a [u8], &'a [u8]), ParseError>, t: &[u8]) -> (r: Result<(&'a [u8], &'a [u8]), ParseError>)
    ensures
        parsed(r) == then_take_until(parsed(first), t@),
{
    match first {
        Err(e) => Err(e),
        Ok((rest, _)) => take_until(rest, t),
    }
}

fn tag_after<'a>(first: Result<(&'a [u8], &'a [u8]), ParseError>, t: &[u8]) -> (r: Result<(&'a [u8], &'a [u8]), ParseError>)
    ensures
        parsed(r) == then_tag(parsed(first), t@),
{
    match first {
        Err(e) => Err(e),
        Ok((rest, _)) => tag(rest, t),
    }
}

/// The `role` object of a streamed chunk, from its opening brace up to the
/// next comma (e.g. `{"role":"assistant"}`).
pub fn nom_role(input: &[u8]) -> (r: Result<(&[u8], &[u8]), ParseError>)
    ensures
        parsed(r) == then_take_until(take_until_spec(input@, encode_utf8("{\"role"@)), encode_utf8(","@)),
{
    take_until_after(take_until(input, "{\"role".as_bytes()), ",".as_bytes())
}

/// The value of the `role` field of a streamed chunk (e.g. `assistant`).
pub fn nom_role_value(input: &[u8]) -> (r: Result<(&[u8], &[u8]), ParseError>)
    ensures
        parsed(r) == then_take_until(
            then_tag(take_until_spec(input@, encode_utf8("role"@)), encode_utf8("role\":\""@)),
            encode_utf8("\"}"@),
        ),
{
    take_until_after(tag_after(take_until(input, "role".as_bytes()), "role\":\"".as_bytes()), "\"}".as_bytes())
}

/// The `content` object of a streamed chunk, from its opening brace up to
/// the next comma (e.g. `{"content":"Hello"}`).
pub fn nom_content(input: &[u8]) -> (r: Result<(&[u8], &[u8]), ParseError>)
    ensures
        parsed(r) == then_take_until(take_until_spec(input@, encode_utf8("{\"content"@)), encode_utf8(","@)),
{
    take_until_after(take_until(input, "{\"content".as_bytes()), ",".as_bytes())
}

/// The value of the `content` field of a streamed chunk (e.g. `Hello`).
pub fn nom_content_value(input: &[u8]) -> (r: Result<(&[u8], &[u8]), ParseError>)
    ensures
        parsed(r) == then_take_until(
            then_tag(take_until_spec(input@, encode_utf8("content"@)), encode_utf8("content\":\""@)),
            encode_utf8("\"}"@),
        ),
{
    take_until_after(
        tag_after(take_until(input, "content".as_bytes()), "content\":\"".as_bytes()),
        "\"}".as_bytes(),
    )
}

/// The value of the single field of a `delta` object, `role` or `content`.
pub fn nom_delta_value(input: &[u8]) -> (r: Result<(&[u8], &[u8]), ParseError>)
    ensures
        parsed(r) == then_take_until(
            then_tag(take_until_spec(input@, encode_utf8(":\""@)), encode_utf8(":\""@)),
            encode_utf8("\""@),
        ),
{
    take_until_after(tag_after(take_until(input, ":\"".as_bytes()), ":\"".as_bytes()), "\"".as_bytes())
}

/// The completion marker `[DONE]`, with whatever follows it.
pub fn nom_til_done(input: &[u8]) -> (r: Result<(&[u8], &[u8]), ParseError>)
    ensures
        parsed(r) == then_tag(take_until_spec(input@, encode_utf8("[DONE]"@)), encode_utf8("[DONE]"@)),
{
    tag_after(take_until(input, "[DONE]".as_bytes()), "[DONE]".as_bytes())
}

/// Whether the input holds the completion marker `[DONE]`.
pub fn nom_is_done(input: &[u8]) -> (r: bool)
    ensures
        r == (find_from(input@, encode_utf8("[DONE]"@), 0) is Some),
{
    let r = nom_til_done(input);
    proof {
        let t = encode_utf8("[DONE]"@);
        lemma_find_from(input@, t, 0);
        if let Some(i) = find_from(input@, t, 0) {
            let rest = input@.subrange(i, input@.len() as int);
            assert(rest.subrange(0, t.len() as int) =~= input@.subrange(i, i + t.len()));
        }
    }
    r.is_ok()
}

/// The first complete object of the stream, from its opening brace up to
/// the end of its line.
pub fn nom_chat_completion_chunk(input: &[u8]) -> (r: Result<(&[u8], &[u8]), ParseError>)
    ensures
        parsed(r) == then_take_until(take_until_spec(input@, encode_utf8("{"@)), encode_utf8("\n"@)),
{
    take_until_after(take_until(input, "{".as_bytes()), "\n".as_bytes())
}

/// A position that `find_from` returns is an occurrence.
pub proof fn lemma_find_from(s: Seq<u8>, t: Seq<u8>, i: int)
    ensures
        find_from(s, t, i) matches Some(k) ==> i <= k && occurs(s, k, t),
    decreases s.len() + 1 - i,
{
    if !(i < 0 || i + t.len() > s.len()) && !occurs(s, i, t) {
        lemma_find_from(s, t, i + 1);
    }
}

} // verus!
