//! The byte-pair encoding engine: it encodes text into token ids and decodes
//! token ids back into bytes.
use crate::merge::{
    has_all_bytes, lemma_merged_bounds, lemma_single_bounds, merged_bounds, parts_ranked,
    parts_ranks, piece_tokens, single_bounds, valid_bounds,
};
use crate::split::regex_spans;
use vstd::prelude::*;
use vstd::string::StringSliceAdditionalSpecFns;

verus! {

/// What an engine holds: the rank of each ordinary byte string, the bytes of
/// each ordinary id, the special tokens with their ids, and the split pattern.
pub struct BpeModel {
    pub ranks: Map<Seq<u8>, usize>,
    pub ids: Map<usize, Seq<u8>>,
    pub specials: Seq<(Seq<u8>, usize)>,
    pub pattern: Seq<char>,
}

/// The tables agree with each other: each rank decodes to its bytes, every
/// single byte has a rank, and special ids are distinct and not ordinary.
pub open spec fn model_wf(m: BpeModel) -> bool {
    &&& forall|k: Seq<u8>| #[trigger]
        m.ranks.contains_key(k) ==> m.ids.contains_key(m.ranks[k]) && m.ids[m.ranks[k]] == k
    &&& has_all_bytes(m.ranks)
    &&& forall|j: int|
        0 <= j < m.specials.len() ==> (#[trigger] m.specials[j]).0.len() > 0 && !m.ids.contains_key(
            m.specials[j].1,
        )
    &&& forall|i: int, j: int|
        0 <= i < m.specials.len() && 0 <= j < m.specials.len() && i != j ==> (#[trigger] m.specials[i]).1
            != (#[trigger] m.specials[j]).1
}

/// Ordinary tokens of `hay[cur..]`, taking the pattern's matches from the
/// `k`-th on; bytes between matches are pieces of their own.
pub open spec fn ordinary_from(
    m: BpeModel,
    hay: Seq<u8>,
    spans: Seq<(usize, usize)>,
    k: int,
    cur: int,
) -> Seq<usize>
    decreases spans.len() - k,
{
    if k < 0 || k >= spans.len() {
        piece_tokens(m.ranks, hay.subrange(cur, hay.len() as int))
    } else {
        let s = spans[k].0 as int;
        let t = spans[k].1 as int;
        if cur <= s && s <= t && t <= hay.len() {
            piece_tokens(m.ranks, hay.subrange(cur, s)) + piece_tokens(m.ranks, hay.subrange(s, t))
                + ordinary_from(m, hay, spans, k + 1, t)
        } else {
            piece_tokens(m.ranks, hay.subrange(cur, hay.len() as int))
        }
    }
}

/// The ordinary encoding of `hay`: no special token is recognised.
pub open spec fn ordinary_tokens(m: BpeModel, hay: Seq<u8>) -> Seq<usize> {
    ordinary_from(m, hay, regex_spans(m.pattern, hay), 0, 0)
}

/// `s` is non-empty and occurs in `hay` at `p`.
pub open spec fn occurs_at(hay: Seq<u8>, p: int, s: Seq<u8>) -> bool {
    s.len() > 0 && 0 <= p && p + s.len() <= hay.len() && hay.subrange(p, p + s.len()) == s
}

/// The first allowed special token, from index `j` on, that occurs at `p`.
pub open spec fn special_at(m: BpeModel, hay: Seq<u8>, p: int, mask: Seq<bool>, j: int) -> Option<int>
    decreases m.specials.len() - j,
{
    if j < 0 || j >= m.specials.len() {
        None
    } else if j < mask.len() && mask[j] && occurs_at(hay, p, m.specials[j].0) {
        Some(j)
    } else {
        special_at(m, hay, p, mask, j + 1)
    }
}

/// The leftmost position from `p` on where an allowed special token occurs,
/// with the index of that token.
pub open spec fn next_special(m: BpeModel, hay: Seq<u8>, p: int, mask: Seq<bool>) -> Option<(int, int)>
    decreases hay.len() - p,
{
    if p < 0 || p >= hay.len() {
        None
    } else {
        match special_at(m, hay, p, mask, 0) {
            Some(j) => Some((p, j)),
            None => next_special(m, hay, p + 1, mask),
        }
    }
}

/// Tokens of `hay[start..]` where the special tokens that `mask` allows are
/// recognised and the text between them is encoded as ordinary text.
pub open spec fn encode_from(m: BpeModel, hay: Seq<u8>, start: int, mask: Seq<bool>) -> Seq<usize>
    decreases hay.len() - start,
{
    match next_special(m, hay, start, mask) {
        None => ordinary_tokens(m, hay.subrange(start, hay.len() as int)),
        Some(f) => {
            let p = f.0;
            let j = f.1;
            if 0 <= start <= p && 0 <= j < m.specials.len() && 0 < m.specials[j].0.len() && p
                + m.specials[j].0.len() <= hay.len() {
                ordinary_tokens(m, hay.subrange(start, p)) + seq![m.specials[j].1] + encode_from(
                    m,
                    hay,
                    p + m.specials[j].0.len(),
                    mask,
                )
            } else {
                ordinary_tokens(m, hay.subrange(start, hay.len() as int))
            }
        },
    }
}

/// Which special tokens `allowed` names.
pub open spec fn mask_of(specials: Seq<(Seq<u8>, usize)>, allowed: Seq<Seq<u8>>) -> Seq<bool> {
    Seq::new(
        specials.len(),
        |j: int| exists|k: int| 0 <= k < allowed.len() && allowed[k] == specials[j].0,
    )
}

/// The encoding of `hay` with the special tokens in `allowed` recognised.
pub open spec fn encoded(m: BpeModel, hay: Seq<u8>, allowed: Seq<Seq<u8>>) -> Seq<usize> {
    encode_from(m, hay, 0, mask_of(m.specials, allowed))
}

/// The byte strings of a list of strings.
pub open spec fn utf8_all(names: Seq<&str>) -> Seq<Seq<u8>> {
    names.map_values(|n: &str| n.spec_bytes())
}

/// The id is ordinary or special.
pub open spec fn known(m: BpeModel, t: usize) -> bool {
    m.ids.contains_key(t) || exists|j: int| 0 <= j < m.specials.len() && m.specials[j].1 == t
}

/// The bytes of a known id.
pub open spec fn bytes_of(m: BpeModel, t: usize) -> Seq<u8> {
    if m.ids.contains_key(t) {
        m.ids[t]
    } else {
        m.specials[choose|j: int| 0 <= j < m.specials.len() && m.specials[j].1 == t].0
    }
}

/// The bytes of a list of known ids, concatenated.
pub open spec fn decoded(m: BpeModel, toks: Seq<usize>) -> Seq<u8>
    decreases toks.len(),
{
    if toks.len() == 0 {
        Seq::empty()
    } else {
        decoded(m, toks.drop_last()) + bytes_of(m, toks.last())
    }
}

/// Every id of the list is known.
pub open spec fn all_known(m: BpeModel, toks: Seq<usize>) -> bool {
    forall|i: int| 0 <= i < toks.len() ==> known(m, #[trigger] toks[i])
}

/// Every id of the list is an ordinary token.
pub open spec fn all_ordinary(m: BpeModel, toks: Seq<usize>) -> bool {
    forall|i: int| 0 <= i < toks.len() ==> m.ids.contains_key(#[trigger] toks[i])
}

pub proof fn lemma_decoded_concat(m: BpeModel, a: Seq<usize>, b: Seq<usize>)
    ensures
        decoded(m, a + b) == decoded(m, a) + decoded(m, b),
    decreases b.len(),
{
    if b.len() == 0 {
        assert(a + b =~= a);
        assert(decoded(m, b) =~= Seq::<u8>::empty());
        assert(decoded(m, a) + decoded(m, b) =~= decoded(m, a));
    } else {
        lemma_decoded_concat(m, a, b.drop_last());
        assert((a + b).drop_last() =~= a + b.drop_last());
        assert((a + b).last() == b.last());
        assert(decoded(m, a + b) =~= decoded(m, a) + decoded(m, b));
    }
}

proof fn lemma_parts_decode(m: BpeModel, piece: Seq<u8>, b: Seq<usize>, q: int)
    requires
        model_wf(m),
        valid_bounds(b, piece.len()),
        parts_ranked(m.ranks, piece, b),
        0 <= q < b.len(),
    ensures
        decoded(m, parts_ranks(m.ranks, piece, b).subrange(0, q)) == piece.subrange(0, b[q] as int),
        all_ordinary(m, parts_ranks(m.ranks, piece, b).subrange(0, q)),
    decreases q,
{
    let pr = parts_ranks(m.ranks, piece, b);
    if q == 0 {
        assert(pr.subrange(0, 0) =~= Seq::<usize>::empty());
        assert(piece.subrange(0, 0) =~= Seq::<u8>::empty());
    } else {
        lemma_parts_decode(m, piece, b, q - 1);
        assert(b[q - 1] < b[q]);
        assert(b[q] <= piece.len());
        let part = piece.subrange(b[q - 1] as int, b[q] as int);
        assert(m.ranks.contains_key(part));
        assert(pr.subrange(0, q).drop_last() =~= pr.subrange(0, q - 1));
        assert(pr.subrange(0, q).last() == m.ranks[part]);
        assert(piece.subrange(0, b[q - 1] as int) + part =~= piece.subrange(0, b[q] as int));
        assert forall|i: int| 0 <= i < q implies m.ids.contains_key(#[trigger] pr.subrange(0, q)[i]) by {
            if i < q - 1 {
                assert(pr.subrange(0, q)[i] == pr.subrange(0, q - 1)[i]);
            }
        }
    }
}

proof fn lemma_decoded_single(m: BpeModel, t: usize)
    ensures
        decoded(m, seq![t]) == bytes_of(m, t),
{
    let s = seq![t];
    assert(s.drop_last() =~= Seq::<usize>::empty());
    assert(decoded(m, s.drop_last()) == Seq::<u8>::empty());
    assert(s.last() == t);
    assert(Seq::<u8>::empty() + bytes_of(m, t) =~= bytes_of(m, t));
}

proof fn lemma_bounds_round_trip(m: BpeModel, piece: Seq<u8>, b: Seq<usize>)
    requires
        model_wf(m),
        valid_bounds(b, piece.len()),
        parts_ranked(m.ranks, piece, b),
    ensures
        decoded(m, parts_ranks(m.ranks, piece, b)) == piece,
        all_ordinary(m, parts_ranks(m.ranks, piece, b)),
{
    lemma_parts_decode(m, piece, b, b.len() - 1);
    let pr = parts_ranks(m.ranks, piece, b);
    assert(pr.subrange(0, b.len() - 1) =~= pr);
    assert(piece.subrange(0, piece.len() as int) =~= piece);
}

/// The tokens of a piece decode to the piece.
pub proof fn lemma_piece_round_trip(m: BpeModel, piece: Seq<u8>)
    requires
        model_wf(m),
        piece.len() <= usize::MAX,
    ensures
        decoded(m, piece_tokens(m.ranks, piece)) == piece,
        all_ordinary(m, piece_tokens(m.ranks, piece)),
{
    if piece.len() == 0 {
    } else if m.ranks.contains_key(piece) {
        let s = seq![m.ranks[piece]];
        lemma_decoded_single(m, m.ranks[piece]);
        assert(m.ids.contains_key(m.ranks[piece]));
        assert(m.ids.contains_key(s[0]));
    } else {
        lemma_single_bounds(m.ranks, piece);
        lemma_merged_bounds(m.ranks, piece, single_bounds(piece.len()));
        lemma_bounds_round_trip(m, piece, merged_bounds(m.ranks, piece, single_bounds(piece.len())));
    }
}

proof fn lemma_ordinary_concat(m: BpeModel, a: Seq<usize>, b: Seq<usize>)
    requires
        all_ordinary(m, a),
        all_ordinary(m, b),
    ensures
        all_ordinary(m, a + b),
{
    assert forall|i: int| 0 <= i < (a + b).len() implies m.ids.contains_key(#[trigger] (a + b)[i]) by {
        if i < a.len() {
            assert((a + b)[i] == a[i]);
        } else {
            assert((a + b)[i] == b[i - a.len()]);
        }
    }
}

/// Ordinary tokens decode to the bytes they came from.
pub proof fn lemma_ordinary_from_round_trip(
    m: BpeModel,
    hay: Seq<u8>,
    spans: Seq<(usize, usize)>,
    k: int,
    cur: int,
)
    requires
        model_wf(m),
        0 <= cur <= hay.len(),
        hay.len() <= usize::MAX,
    ensures
        decoded(m, ordinary_from(m, hay, spans, k, cur)) == hay.subrange(cur, hay.len() as int),
        all_ordinary(m, ordinary_from(m, hay, spans, k, cur)),
    decreases spans.len() - k,
{
    let tail = hay.subrange(cur, hay.len() as int);
    if k < 0 || k >= spans.len() {
        lemma_piece_round_trip(m, tail);
    } else {
        let s = spans[k].0 as int;
        let t = spans[k].1 as int;
        if cur <= s && s <= t && t <= hay.len() {
            let a = piece_tokens(m.ranks, hay.subrange(cur, s));
            let b = piece_tokens(m.ranks, hay.subrange(s, t));
            let c = ordinary_from(m, hay, spans, k + 1, t);
            lemma_piece_round_trip(m, hay.subrange(cur, s));
            lemma_piece_round_trip(m, hay.subrange(s, t));
            lemma_ordinary_from_round_trip(m, hay, spans, k + 1, t);
            lemma_decoded_concat(m, a, b);
            lemma_decoded_concat(m, a + b, c);
            lemma_ordinary_concat(m, a, b);
            lemma_ordinary_concat(m, a + b, c);
            assert(hay.subrange(cur, s) + hay.subrange(s, t) + hay.subrange(t, hay.len() as int)
                =~= tail);
        } else {
            lemma_piece_round_trip(m, tail);
        }
    }
}

/// The ordinary encoding of any bytes decodes to those bytes, and every id
/// in it is known.
pub proof fn lemma_ordinary_round_trip(m: BpeModel, hay: Seq<u8>)
    requires
        model_wf(m),
        hay.len() <= usize::MAX,
    ensures
        decoded(m, ordinary_tokens(m, hay)) == hay,
        all_ordinary(m, ordinary_tokens(m, hay)),
{
    lemma_ordinary_from_round_trip(m, hay, regex_spans(m.pattern, hay), 0, 0);
    assert(hay.subrange(0, hay.len() as int) =~= hay);
}

pub proof fn lemma_special_at(m: BpeModel, hay: Seq<u8>, p: int, mask: Seq<bool>, j: int)
    ensures
        special_at(m, hay, p, mask, j) matches Some(i) ==> j <= i < m.specials.len() && i < mask.len()
            && mask[i] && occurs_at(hay, p, m.specials[i].0),
    decreases m.specials.len() - j,
{
    if 0 <= j < m.specials.len() {
        lemma_special_at(m, hay, p, mask, j + 1);
    }
}

pub proof fn lemma_next_special(m: BpeModel, hay: Seq<u8>, p: int, mask: Seq<bool>)
    ensures
        next_special(m, hay, p, mask) matches Some(f) ==> p <= f.0 && 0 <= f.1 < m.specials.len()
            && f.1 < mask.len() && mask[f.1] && occurs_at(hay, f.0, m.specials[f.1].0),
    decreases hay.len() - p,
{
    if 0 <= p < hay.len() {
        lemma_special_at(m, hay, p, mask, 0);
        lemma_next_special(m, hay, p + 1, mask);
    }
}

proof fn lemma_known_concat(m: BpeModel, a: Seq<usize>, b: Seq<usize>)
    requires
        all_known(m, a),
        all_known(m, b),
    ensures
        all_known(m, a + b),
{
    assert forall|i: int| 0 <= i < (a + b).len() implies known(m, #[trigger] (a + b)[i]) by {
        if i < a.len() {
            assert((a + b)[i] == a[i]);
        } else {
            assert((a + b)[i] == b[i - a.len()]);
        }
    }
}

proof fn lemma_ordinary_known(m: BpeModel, a: Seq<usize>)
    requires
        all_ordinary(m, a),
    ensures
        all_known(m, a),
{
    assert forall|i: int| 0 <= i < a.len() implies known(m, #[trigger] a[i]) by {
        assert(m.ids.contains_key(a[i]));
    }
}

/// A special id decodes to its own token.
proof fn lemma_special_bytes(m: BpeModel, j: int)
    requires
        model_wf(m),
        0 <= j < m.specials.len(),
    ensures
        known(m, m.specials[j].1),
        bytes_of(m, m.specials[j].1) == m.specials[j].0,
{
    let t = m.specials[j].1;
    assert(m.specials[j].0.len() > 0);
    let i = choose|i: int| 0 <= i < m.specials.len() && m.specials[i].1 == t;
    if i != j {
        assert(m.specials[i].1 != m.specials[j].1);
    }
}

/// Encoding with special tokens decodes to the bytes it came from.
pub proof fn lemma_encode_from_round_trip(m: BpeModel, hay: Seq<u8>, start: int, mask: Seq<bool>)
    requires
        model_wf(m),
        0 <= start <= hay.len(),
        hay.len() <= usize::MAX,
    ensures
        decoded(m, encode_from(m, hay, start, mask)) == hay.subrange(start, hay.len() as int),
        all_known(m, encode_from(m, hay, start, mask)),
    decreases hay.len() - start,
{
    lemma_next_special(m, hay, start, mask);
    match next_special(m, hay, start, mask) {
        None => {
            lemma_ordinary_round_trip(m, hay.subrange(start, hay.len() as int));
            lemma_ordinary_known(m, ordinary_tokens(m, hay.subrange(start, hay.len() as int)));
        },
        Some(f) => {
            let p = f.0;
            let j = f.1;
            let len = m.specials[j].0.len() as int;
            if 0 <= start <= p && 0 <= j < m.specials.len() && 0 < len && p + len <= hay.len() {
                let a = ordinary_tokens(m, hay.subrange(start, p));
                let b = seq![m.specials[j].1];
                let c = encode_from(m, hay, p + len, mask);
                lemma_ordinary_round_trip(m, hay.subrange(start, p));
                lemma_ordinary_known(m, a);
                lemma_special_bytes(m, j);
                lemma_decoded_single(m, m.specials[j].1);
                lemma_encode_from_round_trip(m, hay, p + len, mask);
                lemma_decoded_concat(m, a, b);
                lemma_decoded_concat(m, a + b, c);
                assert forall|i: int| 0 <= i < b.len() implies known(m, #[trigger] b[i]) by {}
                lemma_known_concat(m, a, b);
                lemma_known_concat(m, a + b, c);
                assert(hay.subrange(start, p) + hay.subrange(p, p + len) + hay.subrange(
                    p + len,
                    hay.len() as int,
                ) =~= hay.subrange(start, hay.len() as int));
            } else {
                lemma_ordinary_round_trip(m, hay.subrange(start, hay.len() as int));
                lemma_ordinary_known(m, ordinary_tokens(m, hay.subrange(start, hay.len() as int)));
            }
        },
    }
}

proof fn lemma_special_at_none(m: BpeModel, hay: Seq<u8>, p: int, mask: Seq<bool>, j: int)
    requires
        forall|i: int| j <= i < m.specials.len() && i < mask.len() && mask[i] ==> !occurs_at(hay, p, #[trigger] m.specials[i].0),
    ensures
        special_at(m, hay, p, mask, j) is None,
    decreases m.specials.len() - j,
{
    if 0 <= j < m.specials.len() {
        lemma_special_at_none(m, hay, p, mask, j + 1);
    } else if j < 0 {
    }
}

proof fn lemma_special_at_first(m: BpeModel, hay: Seq<u8>, p: int, mask: Seq<bool>, j0: int, j: int)
    requires
        0 <= j0 <= j < m.specials.len(),
        j < mask.len(),
        mask[j],
        occurs_at(hay, p, m.specials[j].0),
        forall|i: int| j0 <= i < j && i < mask.len() && mask[i] ==> !occurs_at(hay, p, #[trigger] m.specials[i].0),
    ensures
        special_at(m, hay, p, mask, j0) == Some(j),
    decreases j - j0,
{
    if j0 < j {
        lemma_special_at_first(m, hay, p, mask, j0 + 1, j);
    }
}

proof fn lemma_next_special_at(m: BpeModel, hay: Seq<u8>, p0: int, target: int, j: int, mask: Seq<bool>)
    requires
        0 <= p0 <= target < hay.len(),
        forall|p: int| p0 <= p < target ==> #[trigger] special_at(m, hay, p, mask, 0) is None,
        special_at(m, hay, target, mask, 0) == Some(j),
    ensures
        next_special(m, hay, p0, mask) == Some((target, j)),
    decreases target - p0,
{
    if p0 < target {
        lemma_next_special_at(m, hay, p0 + 1, target, j, mask);
    }
}

/// Encoding with recognised special tokens: when an allowed special token
/// follows text in which no allowed special token starts, the result is the
/// ordinary tokens of that text, then the special token's own id, then the
/// encoding of the rest; and that id is not among the ordinary tokens of the
/// special token's text.
pub proof fn law_special_token_recognised(
    m: BpeModel,
    before: Seq<u8>,
    j: int,
    after: Seq<u8>,
    mask: Seq<bool>,
)
    requires
        model_wf(m),
        0 <= j < m.specials.len(),
        j < mask.len(),
        mask[j],
        (before + m.specials[j].0 + after).len() <= usize::MAX,
        forall|p: int, i: int|
            0 <= p < before.len() && 0 <= i < m.specials.len() && i < mask.len() && mask[i]
                ==> !#[trigger] occurs_at(before + m.specials[j].0 + after, p, m.specials[i].0),
        forall|i: int|
            0 <= i < j && i < mask.len() && mask[i] ==> !occurs_at(
                before + m.specials[j].0 + after,
                before.len() as int,
                #[trigger] m.specials[i].0,
            ),
    ensures
        encode_from(m, before + m.specials[j].0 + after, 0, mask) == ordinary_tokens(m, before)
            + seq![m.specials[j].1] + encode_from(
            m,
            before + m.specials[j].0 + after,
            (before.len() + m.specials[j].0.len()) as int,
            mask,
        ),
        !ordinary_tokens(m, m.specials[j].0).contains(m.specials[j].1),
{
    let s = m.specials[j].0;
    let text = before + s + after;
    let n = before.len() as int;
    assert(s.len() > 0);
    assert(text.subrange(n, n + s.len()) =~= s);
    assert(occurs_at(text, n, s));
    assert forall|p: int| 0 <= p < n implies #[trigger] special_at(m, text, p, mask, 0) is None by {
        lemma_special_at_none(m, text, p, mask, 0);
    }
    lemma_special_at_first(m, text, n, mask, 0, j);
    lemma_next_special_at(m, text, 0, n, j, mask);
    assert(text.subrange(0, n) =~= before);
    lemma_ordinary_round_trip(m, s);
    if ordinary_tokens(m, s).contains(m.specials[j].1) {
        let i = choose|i: int| 0 <= i < ordinary_tokens(m, s).len() && ordinary_tokens(m, s)[i] == m.specials[j].1;
        assert(m.ids.contains_key(ordinary_tokens(m, s)[i]));
    }
}

/// Round trip: the ordinary encoding of any bytes decodes back to them, and
/// decoding it cannot fail since every id in it is known.
pub proof fn law_ordinary_round_trip(m: BpeModel, text: Seq<u8>)
    requires
        model_wf(m),
        text.len() <= usize::MAX,
    ensures
        decoded(m, ordinary_tokens(m, text)) == text,
        all_known(m, ordinary_tokens(m, text)),
{
    lemma_ordinary_round_trip(m, text);
    lemma_ordinary_known(m, ordinary_tokens(m, text));
}

/// Round trip with special tokens: whatever special tokens are allowed, the
/// encoding decodes back to the bytes, and decoding it cannot fail.
pub proof fn law_encoded_round_trip(m: BpeModel, text: Seq<u8>, mask: Seq<bool>)
    requires
        model_wf(m),
        text.len() <= usize::MAX,
    ensures
        decoded(m, encode_from(m, text, 0, mask)) == text,
        all_known(m, encode_from(m, text, 0, mask)),
{
    lemma_encode_from_round_trip(m, text, 0, mask);
    assert(text.subrange(0, text.len() as int) =~= text);
}

/// Determinism: two ordinary encodings of the same text by the same engine
/// are equal.
pub proof fn law_ordinary_deterministic(m: BpeModel, text: Seq<u8>, first: Seq<usize>, second: Seq<usize>)
    requires
        first == ordinary_tokens(m, text),
        second == ordinary_tokens(m, text),
    ensures
        first == second,
{
}

} // verus!
