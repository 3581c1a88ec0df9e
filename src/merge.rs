//! Byte-pair merging of one piece: the lowest-ranked adjacent pair is merged
//! first, the leftmost one among equals, until no adjacent pair has a rank.
use crate::table::ByteTable;
use vstd::prelude::*;

verus! {

/// Rank of the bytes `piece[lo..hi]`, if the table holds them.
pub open spec fn rank_of(ranks: Map<Seq<u8>, usize>, piece: Seq<u8>, lo: int, hi: int) -> Option<usize> {
    let k = piece.subrange(lo, hi);
    if ranks.contains_key(k) {
        Some(ranks[k])
    } else {
        None
    }
}

/// Rank of the merge of parts `i` and `i + 1`, where part `i` is
/// `piece[b[i]..b[i + 1]]`.
pub open spec fn pair_rank(ranks: Map<Seq<u8>, usize>, piece: Seq<u8>, b: Seq<usize>, i: int) -> Option<usize> {
    rank_of(ranks, piece, b[i] as int, b[i + 2] as int)
}

/// The leftmost pair of least rank among pairs `0..k`, as `(rank, index)`.
pub open spec fn min_pair(ranks: Map<Seq<u8>, usize>, piece: Seq<u8>, b: Seq<usize>, k: int) -> Option<(usize, int)>
    decreases k,
{
    if k <= 0 {
        None
    } else {
        let prev = min_pair(ranks, piece, b, k - 1);
        match pair_rank(ranks, piece, b, k - 1) {
            None => prev,
            Some(r) => match prev {
                None => Some((r, k - 1)),
                Some(p) => if r < p.0 {
                    Some((r, k - 1))
                } else {
                    prev
                },
            },
        }
    }
}

/// The part boundaries left when no adjacent pair of parts can merge.
pub open spec fn merged_bounds(ranks: Map<Seq<u8>, usize>, piece: Seq<u8>, b: Seq<usize>) -> Seq<usize>
    decreases b.len(),
{
    if b.len() < 3 {
        b
    } else {
        match min_pair(ranks, piece, b, b.len() - 2) {
            None => b,
            Some(p) => if 0 <= p.1 < b.len() - 2 {
                merged_bounds(ranks, piece, b.remove(p.1 + 1))
            } else {
                b
            },
        }
    }
}

/// The boundaries of a piece of `n` bytes split into single bytes.
pub open spec fn single_bounds(n: nat) -> Seq<usize> {
    Seq::new(n + 1, |i: int| i as usize)
}

/// The ranks of the parts between consecutive boundaries.
pub open spec fn parts_ranks(ranks: Map<Seq<u8>, usize>, piece: Seq<u8>, b: Seq<usize>) -> Seq<usize> {
    Seq::new((b.len() - 1) as nat, |i: int| ranks[piece.subrange(b[i] as int, b[i + 1] as int)])
}

/// The tokens of one piece: its own rank when the table holds it whole,
/// else the ranks of the parts that merging leaves.
pub open spec fn piece_tokens(ranks: Map<Seq<u8>, usize>, piece: Seq<u8>) -> Seq<usize> {
    if piece.len() == 0 {
        Seq::empty()
    } else if ranks.contains_key(piece) {
        seq![ranks[piece]]
    } else {
        parts_ranks(ranks, piece, merged_bounds(ranks, piece, single_bounds(piece.len())))
    }
}

/// Boundaries that start at 0, end at `n` and strictly increase.
pub open spec fn valid_bounds(b: Seq<usize>, n: nat) -> bool {
    &&& b.len() >= 1
    &&& b[0] == 0
    &&& b[b.len() - 1] == n
    &&& forall|j: int| 0 <= j < b.len() - 1 ==> #[trigger] b[j] < b[j + 1]
    &&& forall|j: int| 0 <= j < b.len() ==> #[trigger] b[j] <= n
}

/// Every part between consecutive boundaries is held by the table.
pub open spec fn parts_ranked(ranks: Map<Seq<u8>, usize>, piece: Seq<u8>, b: Seq<usize>) -> bool {
    forall|j: int|
        0 <= j < b.len() - 1 ==> #[trigger] ranks.contains_key(piece.subrange(b[j] as int, b[j + 1] as int))
}

/// Every single byte is held by the table.
pub open spec fn has_all_bytes(ranks: Map<Seq<u8>, usize>) -> bool {
    forall|x: u8| #[trigger] ranks.contains_key(seq![x])
}

pub proof fn lemma_min_pair(ranks: Map<Seq<u8>, usize>, piece: Seq<u8>, b: Seq<usize>, k: int)
    ensures
        min_pair(ranks, piece, b, k) matches Some(p) ==> 0 <= p.1 < k && pair_rank(ranks, piece, b, p.1)
            == Some(p.0),
    decreases k,
{
    if k > 0 {
        lemma_min_pair(ranks, piece, b, k - 1);
    }
}

/// Merging keeps the boundaries valid and every part held by the table.
pub proof fn lemma_merged_bounds(ranks: Map<Seq<u8>, usize>, piece: Seq<u8>, b: Seq<usize>)
    requires
        valid_bounds(b, piece.len()),
        parts_ranked(ranks, piece, b),
    ensures
        valid_bounds(merged_bounds(ranks, piece, b), piece.len()),
        parts_ranked(ranks, piece, merged_bounds(ranks, piece, b)),
    decreases b.len(),
{
    if b.len() >= 3 {
        lemma_min_pair(ranks, piece, b, b.len() - 2);
        if let Some(p) = min_pair(ranks, piece, b, b.len() - 2) {
            let i = p.1;
            let c = b.remove(i + 1);
            assert forall|j: int| 0 <= j < c.len() - 1 implies #[trigger] c[j] < c[j + 1] by {
                if j < i {
                    assert(b[j] < b[j + 1]);
                } else if j == i {
                    assert(b[i] < b[i + 1]);
                    assert(b[i + 1] < b[i + 2]);
                } else {
                    assert(b[j + 1] < b[j + 2]);
                }
            }
            assert forall|j: int| 0 <= j < c.len() implies #[trigger] c[j] <= piece.len() by {
                if j <= i {
                    assert(b[j] <= piece.len());
                } else {
                    assert(b[j + 1] <= piece.len());
                }
            }
            assert forall|j: int| 0 <= j < c.len() - 1 implies #[trigger] ranks.contains_key(
                piece.subrange(c[j] as int, c[j + 1] as int),
            ) by {
                if j < i {
                    assert(ranks.contains_key(piece.subrange(b[j] as int, b[j + 1] as int)));
                } else if j > i {
                    assert(ranks.contains_key(piece.subrange(b[j + 1] as int, b[j + 2] as int)));
                }
            }
            lemma_merged_bounds(ranks, piece, c);
        }
    }
}

/// Single-byte boundaries are valid, and each part is held when every byte is.
pub proof fn lemma_single_bounds(ranks: Map<Seq<u8>, usize>, piece: Seq<u8>)
    requires
        has_all_bytes(ranks),
        piece.len() <= usize::MAX,
    ensures
        valid_bounds(single_bounds(piece.len()), piece.len()),
        parts_ranked(ranks, piece, single_bounds(piece.len())),
{
    let b = single_bounds(piece.len());
    assert(b.len() == piece.len() + 1);
    assert(b[0] == 0);
    assert(b[b.len() - 1] == piece.len());
    assert forall|j: int| 0 <= j < b.len() - 1 implies #[trigger] b[j] < b[j + 1] by {
        assert(b[j] == j);
        assert(b[j + 1] == j + 1);
    }
    assert forall|j: int| 0 <= j < b.len() implies #[trigger] b[j] <= piece.len() by {
        assert(b[j] == j);
    }
    assert forall|j: int| 0 <= j < b.len() - 1 implies #[trigger] ranks.contains_key(
        piece.subrange(b[j] as int, b[j + 1] as int),
    ) by {
        assert(b[j] == j);
        assert(b[j + 1] == j + 1);
        assert(piece.subrange(j, j + 1) =~= seq![piece[j]]);
    }
}

/// The boundaries `0, 1, ..., n`.
fn initial_bounds(n: usize) -> (b: Vec<usize>)
    ensures
        b@ == single_bounds(n as nat),
{
    let mut bounds: Vec<usize> = Vec::new();
    let mut i: usize = 0;
    while i < n
        invariant
            i <= n,
            bounds@ == single_bounds(n as nat).subrange(0, i as int),
        decreases n - i,
    {
        bounds.push(i);
        i = i + 1;
        assert(bounds@ =~= single_bounds(n as nat).subrange(0, i as int));
    }
    bounds.push(n);
    assert(bounds@ =~= single_bounds(n as nat));
    bounds
}

/// The cached rank of every adjacent pair of parts.
fn initial_pair_ranks(table: &ByteTable, piece: &[u8], bounds: &Vec<usize>) -> (r: Vec<Option<usize>>)
    requires
        table.wf(),
        bounds@ == single_bounds(piece@.len()),
        piece@.len() >= 1,
    ensures
        r@.len() + 2 == bounds@.len(),
        forall|k: int| 0 <= k < r@.len() ==> #[trigger] r@[k] == pair_rank(table@, piece@, bounds@, k),
{
    let n = piece.len();
    let mut pair_ranks: Vec<Option<usize>> = Vec::new();
    let mut j: usize = 0;
    while j + 1 < n
        invariant
            table.wf(),
            n == piece@.len(),
            n >= 1,
            bounds@ == single_bounds(n as nat),
            j <= n - 1,
            pair_ranks@.len() == j,
            forall|k: int| 0 <= k < j ==> #[trigger] pair_ranks@[k] == pair_rank(table@, piece@, bounds@, k),
        decreases n - j,
    {
        assert(bounds@[j as int] == j && bounds@[j + 2] == j + 2);
        pair_ranks.push(table.get_range(piece, j, j + 2));
        j = j + 1;
    }
    pair_ranks
}

/// The leftmost pair of least cached rank.
fn find_min_pair(pair_ranks: &Vec<Option<usize>>, Ghost(ranks): Ghost<Map<Seq<u8>, usize>>, Ghost(piece): Ghost<Seq<u8>>, Ghost(b): Ghost<Seq<usize>>) -> (best: Option<(usize, usize)>)
    requires
        pair_ranks@.len() + 2 == b.len(),
        forall|q: int| 0 <= q < pair_ranks@.len() ==> #[trigger] pair_ranks@[q] == pair_rank(ranks, piece, b, q),
    ensures
        match best {
            None => min_pair(ranks, piece, b, pair_ranks@.len() as int) is None,
            Some(p) => min_pair(ranks, piece, b, pair_ranks@.len() as int) == Some((p.0, p.1 as int)),
        },
{
    let mut best: Option<(usize, usize)> = None;
    let mut k: usize = 0;
    while k < pair_ranks.len()
        invariant
            pair_ranks@.len() + 2 == b.len(),
            k <= pair_ranks@.len(),
            forall|q: int| 0 <= q < pair_ranks@.len() ==> #[trigger] pair_ranks@[q] == pair_rank(ranks, piece, b, q),
            match best {
                None => min_pair(ranks, piece, b, k as int) is None,
                Some(p) => min_pair(ranks, piece, b, k as int) == Some((p.0, p.1 as int)),
            },
        decreases pair_ranks@.len() - k,
    {
        if let Some(r) = pair_ranks[k] {
            match best {
                None => {
                    best = Some((r, k));
                },
                Some(p) => {
                    if r < p.0 {
                        best = Some((r, k));
                    }
                },
            }
        }
        k = k + 1;
    }
    best
}

/// Removing an inner boundary keeps the boundaries valid.
proof fn lemma_remove_bound(b: Seq<usize>, n: nat, i: int)
    requires
        valid_bounds(b, n),
        0 <= i,
        i + 2 < b.len(),
    ensures
        valid_bounds(b.remove(i + 1), n),
{
    let c = b.remove(i + 1);
    assert forall|q: int| 0 <= q < c.len() - 1 implies #[trigger] c[q] < c[q + 1] by {
        if q < i {
            assert(b[q] < b[q + 1]);
        } else if q == i {
            assert(b[q] < b[q + 1]);
            assert(b[q + 1] < b[q + 2]);
        } else {
            assert(b[q + 1] < b[q + 2]);
        }
    }
    assert forall|q: int| 0 <= q < c.len() implies #[trigger] c[q] <= n by {
        if q <= i {
            assert(b[q] <= n);
        } else {
            assert(b[q + 1] <= n);
        }
    }
}

/// After removing boundary `i + 1`, the pairs away from the merge keep their ranks.
proof fn lemma_shifted_pairs(ranks: Map<Seq<u8>, usize>, piece: Seq<u8>, b: Seq<usize>, i: int, q: int)
    requires
        0 <= i,
        i + 2 < b.len(),
        0 <= q < b.len() - 3,
    ensures
        q < i - 1 ==> pair_rank(ranks, piece, b.remove(i + 1), q) == pair_rank(ranks, piece, b, q),
        q > i ==> pair_rank(ranks, piece, b.remove(i + 1), q) == pair_rank(ranks, piece, b, q + 1),
{
    let c = b.remove(i + 1);
    if q < i - 1 {
        assert(c[q] == b[q] && c[q + 2] == b[q + 2]);
    } else if q > i {
        assert(c[q] == b[q + 1] && c[q + 2] == b[q + 3]);
    }
}

/// Merges parts `i` and `i + 1`, keeping the cached pair ranks exact.
#[verifier::rlimit(60)]
fn merge_pair(table: &ByteTable, piece: &[u8], bounds: &mut Vec<usize>, pair_ranks: &mut Vec<Option<usize>>, i: usize)
    requires
        table.wf(),
        valid_bounds(old(bounds)@, piece@.len()),
        old(pair_ranks)@.len() + 2 == old(bounds)@.len(),
        i < old(pair_ranks)@.len(),
        forall|q: int| 0 <= q < old(pair_ranks)@.len() ==> #[trigger] old(pair_ranks)@[q] == pair_rank(table@, piece@, old(bounds)@, q),
    ensures
        final(bounds)@ == old(bounds)@.remove(i + 1),
        valid_bounds(final(bounds)@, piece@.len()),
        final(pair_ranks)@.len() + 2 == final(bounds)@.len(),
        forall|q: int| 0 <= q < final(pair_ranks)@.len() ==> #[trigger] final(pair_ranks)@[q] == pair_rank(table@, piece@, final(bounds)@, q),
{
    let ghost old_b = bounds@;
    let ghost old_r = pair_ranks@;
    proof {
        lemma_remove_bound(old_b, piece@.len(), i as int);
    }
    let blen0 = bounds.len();
    assert(i + 2 < blen0);
    bounds.remove(i + 1);
    pair_ranks.remove(i);
    let remaining = pair_ranks.len();
    let blen = bounds.len();
    assert(remaining + 2 == blen);
    if i < remaining {
        assert(bounds@[i as int] < bounds@[i + 1] && bounds@[i + 1] < bounds@[i + 2]);
        assert(bounds@[i + 2] <= piece@.len());
        let v = table.get_range(piece, bounds[i], bounds[i + 2]);
        pair_ranks.set(i, v);
    }
    if i > 0 {
        assert(bounds@[i - 1] < bounds@[i as int] && bounds@[i as int] < bounds@[i + 1]);
        assert(bounds@[i + 1] <= piece@.len());
        let v = table.get_range(piece, bounds[i - 1], bounds[i + 1]);
        pair_ranks.set(i - 1, v);
    }
    assert forall|q: int| 0 <= q < pair_ranks@.len() implies #[trigger] pair_ranks@[q] == pair_rank(
        table@,
        piece@,
        bounds@,
        q,
    ) by {
        lemma_shifted_pairs(table@, piece@, old_b, i as int, q);
        if q < i - 1 {
            assert(pair_ranks@[q] == old_r[q]);
        } else if q > i {
            assert(pair_ranks@[q] == old_r[q + 1]);
        }
    }
}

/// The ranks of the parts between consecutive boundaries.
fn collect_parts(table: &ByteTable, piece: &[u8], bounds: &Vec<usize>) -> (out: Vec<usize>)
    requires
        table.wf(),
        valid_bounds(bounds@, piece@.len()),
        parts_ranked(table@, piece@, bounds@),
    ensures
        out@ == parts_ranks(table@, piece@, bounds@),
{
    let mut out: Vec<usize> = Vec::new();
    let mut q: usize = 0;
    let last = bounds.len() - 1;
    while q < last
        invariant
            table.wf(),
            valid_bounds(bounds@, piece@.len()),
            parts_ranked(table@, piece@, bounds@),
            last + 1 == bounds@.len(),
            q <= last,
            out@.len() == q,
            forall|k: int| 0 <= k < q ==> #[trigger] out@[k] == table@[piece@.subrange(bounds@[k] as int, bounds@[k + 1] as int)],
        decreases last - q,
    {
        assert(bounds@[q as int] < bounds@[q + 1]);
        assert(bounds@[q + 1] <= piece@.len());
        assert(table@.contains_key(piece@.subrange(bounds@[q as int] as int, bounds@[q + 1] as int)));
        match table.get_range(piece, bounds[q], bounds[q + 1]) {
            Some(r) => {
                out.push(r);
            },
            None => {
                assert(false);
            },
        }
        q = q + 1;
    }
    assert(out@ =~= parts_ranks(table@, piece@, bounds@));
    out
}

/// Byte-pair encodes `piece` against `table`.
pub fn byte_pair_encode(table: &ByteTable, piece: &[u8]) -> (r: Vec<usize>)
    requires
        table.wf(),
        has_all_bytes(table@),
    ensures
        r@ == piece_tokens(table@, piece@),
{
    let ghost ranks = table@;
    let n = piece.len();
    if n == 0 {
        return Vec::new();
    }
    assert(piece@.subrange(0, n as int) =~= piece@);
    if let Some(r) = table.get_range(piece, 0, n) {
        return vec![r];
    }
    let mut bounds = initial_bounds(n);
    assert(piece@.len() == n);
    proof {
        lemma_single_bounds(ranks, piece@);
        lemma_merged_bounds(ranks, piece@, bounds@);
    }
    let ghost target = merged_bounds(ranks, piece@, bounds@);
    let mut pair_ranks = initial_pair_ranks(table, piece, &bounds);
    loop
        invariant
            table.wf(),
            ranks == table@,
            valid_bounds(bounds@, piece@.len()),
            merged_bounds(ranks, piece@, bounds@) == target,
            pair_ranks@.len() + 2 == bounds@.len(),
            forall|k: int| 0 <= k < pair_ranks@.len() ==> #[trigger] pair_ranks@[k] == pair_rank(ranks, piece@, bounds@, k),
        ensures
            bounds@ == target,
        decreases bounds@.len(),
    {
        if bounds.len() < 3 {
            break;
        }
        let best = find_min_pair(&pair_ranks, Ghost(ranks), Ghost(piece@), Ghost(bounds@));
        proof {
            lemma_min_pair(ranks, piece@, bounds@, pair_ranks@.len() as int);
        }
        match best {
            None => {
                break;
            },
            Some(p) => {
                merge_pair(table, piece, &mut bounds, &mut pair_ranks, p.1);
            },
        }
    }
    collect_parts(table, piece, &bounds)
}

} // verus!
