//! Small text operations over characters: finding a character and trimming
//! white space.
use vstd::prelude::*;
use vstd::string::{StrSliceExecFns, StringExecFns};

verus! {

/// Unicode white space, the characters that `str::trim` removes.
pub open spec fn is_white_space(c: char) -> bool {
    c == '\t' || c == '\n' || c == '\u{0B}' || c == '\u{0C}' || c == '\r' || c == ' ' || c == '\u{85}'
        || c == '\u{A0}' || c == '\u{1680}' || ('\u{2000}' <= c && c <= '\u{200A}') || c == '\u{2028}'
        || c == '\u{2029}' || c == '\u{202F}' || c == '\u{205F}' || c == '\u{3000}'
}

/// Whether `c` is Unicode white space.
pub fn white_space(c: char) -> (r: bool)
    ensures
        r == is_white_space(c),
{
    c == '\t' || c == '\n' || c == '\u{0B}' || c == '\u{0C}' || c == '\r' || c == ' ' || c == '\u{85}'
        || c == '\u{A0}' || c == '\u{1680}' || ('\u{2000}' <= c && c <= '\u{200A}') || c == '\u{2028}'
        || c == '\u{2029}' || c == '\u{202F}' || c == '\u{205F}' || c == '\u{3000}'
}

/// The first position from `i` on that holds `c`, or the length of `s`.
pub open spec fn index_of(s: Seq<char>, c: char, i: int) -> int
    decreases s.len() - i,
{
    if i < 0 || i >= s.len() {
        s.len() as int
    } else if s[i] == c {
        i
    } else {
        index_of(s, c, i + 1)
    }
}

/// The first position from `i` on that is not white space, or the length.
pub open spec fn skip_white(s: Seq<char>, i: int) -> int
    decreases s.len() - i,
{
    if i < 0 || i >= s.len() {
        s.len() as int
    } else if !is_white_space(s[i]) {
        i
    } else {
        skip_white(s, i + 1)
    }
}

/// The end of `s[lo..j]` once its trailing white space is dropped.
pub open spec fn drop_white(s: Seq<char>, lo: int, j: int) -> int
    decreases j - lo,
{
    if j <= lo || j > s.len() {
        if j > s.len() { s.len() as int } else { lo }
    } else if !is_white_space(s[j - 1]) {
        j
    } else {
        drop_white(s, lo, j - 1)
    }
}

/// `s` without leading and trailing white space.
pub open spec fn trimmed(s: Seq<char>) -> Seq<char> {
    let lo = skip_white(s, 0);
    s.subrange(lo, drop_white(s, lo, s.len() as int))
}

pub proof fn lemma_index_of(s: Seq<char>, c: char, i: int)
    requires
        0 <= i <= s.len(),
    ensures
        i <= index_of(s, c, i) <= s.len(),
    decreases s.len() - i,
{
    if i < s.len() && s[i] != c {
        lemma_index_of(s, c, i + 1);
    }
}

/// Where `c` first occurs in `s` from `i` on, or `len`.
pub fn find_char(s: &str, len: usize, c: char, i: usize) -> (r: usize)
    requires
        len == s@.len(),
        i <= len,
    ensures
        r as int == index_of(s@, c, i as int),
{
    let mut k = i;
    while k < len
        invariant
            len == s@.len(),
            i <= k <= len,
            index_of(s@, c, i as int) == index_of(s@, c, k as int),
        decreases len - k,
    {
        if s.get_char(k) == c {
            return k;
        }
        k = k + 1;
    }
    k
}

/// `s` without leading and trailing white space.
pub fn trim(s: &str) -> (r: &str)
    ensures
        r@ == trimmed(s@),
{
    let len = s.unicode_len();
    let mut lo: usize = 0;
    while lo < len
        invariant
            len == s@.len(),
            lo <= len,
            skip_white(s@, 0) == skip_white(s@, lo as int),
        ensures
            lo <= len,
            lo as int == skip_white(s@, 0),
        decreases len - lo,
    {
        if !white_space(s.get_char(lo)) {
            break;
        }
        lo = lo + 1;
    }
    let mut hi: usize = len;
    while hi > lo
        invariant
            len == s@.len(),
            lo <= hi <= len,
            lo as int == skip_white(s@, 0),
            drop_white(s@, lo as int, len as int) == drop_white(s@, lo as int, hi as int),
        ensures
            lo <= hi <= len,
            hi as int == drop_white(s@, lo as int, len as int),
        decreases hi - lo,
    {
        if !white_space(s.get_char(hi - 1)) {
            break;
        }
        hi = hi - 1;
    }
    s.substring_char(lo, hi)
}

/// The decimal digit `d`.
pub open spec fn digit_text(d: u8) -> Seq<char> {
    if d == 0 {
        "0"@
    } else if d == 1 {
        "1"@
    } else if d == 2 {
        "2"@
    } else if d == 3 {
        "3"@
    } else if d == 4 {
        "4"@
    } else if d == 5 {
        "5"@
    } else if d == 6 {
        "6"@
    } else if d == 7 {
        "7"@
    } else if d == 8 {
        "8"@
    } else {
        "9"@
    }
}

fn digit(d: u8) -> (r: &'static str)
    ensures
        r@ == digit_text(d),
{
    if d == 0 {
        "0"
    } else if d == 1 {
        "1"
    } else if d == 2 {
        "2"
    } else if d == 3 {
        "3"
    } else if d == 4 {
        "4"
    } else if d == 5 {
        "5"
    } else if d == 6 {
        "6"
    } else if d == 7 {
        "7"
    } else if d == 8 {
        "8"
    } else {
        "9"
    }
}

/// A byte in decimal, without leading zeros.
pub open spec fn byte_text(b: u8) -> Seq<char> {
    if b < 10 {
        digit_text(b)
    } else if b < 100 {
        digit_text(b / 10) + digit_text(b % 10)
    } else {
        digit_text(b / 100) + digit_text((b / 10) % 10) + digit_text(b % 10)
    }
}

/// The bytes in decimal, separated by a comma and a space.
pub open spec fn bytes_list(s: Seq<u8>) -> Seq<char>
    decreases s.len(),
{
    if s.len() == 0 {
        Seq::empty()
    } else if s.len() == 1 {
        byte_text(s[0])
    } else {
        bytes_list(s.drop_last()) + ", "@ + byte_text(s.last())
    }
}

/// A byte slice as its debug text: `[1, 22, 255]`.
pub fn bytes_debug(s: &[u8]) -> (r: String)
    ensures
        r@ == "["@ + bytes_list(s@) + "]"@,
{
    let mut out = "[".to_owned();
    let mut i: usize = 0;
    while i < s.len()
        invariant
            i <= s@.len(),
            out@ == "["@ + bytes_list(s@.subrange(0, i as int)),
        decreases s@.len() - i,
    {
        let b = s[i];
        let ghost prev = out@;
        if i > 0 {
            out.append(", ");
        }
        if b < 10 {
            out.append(digit(b));
        } else if b < 100 {
            out.append(digit(b / 10));
            out.append(digit(b % 10));
        } else {
            out.append(digit(b / 100));
            out.append(digit((b / 10) % 10));
            out.append(digit(b % 10));
        }
        assert(s@.subrange(0, i + 1).drop_last() =~= s@.subrange(0, i as int));
        if i == 0 {
            assert(s@.subrange(0, 0) =~= Seq::<u8>::empty());
            assert(out@ =~= "["@ + bytes_list(s@.subrange(0, 1)));
        } else {
            assert(out@ =~= "["@ + bytes_list(s@.subrange(0, i + 1)));
        }
        i = i + 1;
    }
    assert(s@.subrange(0, s@.len() as int) =~= s@);
    out.append("]");
    out
}

} // verus!
