//! A hash table from byte strings to ranks, with its contents modelled as a
//! `Map<Seq<u8>, usize>`.
use vstd::prelude::*;

verus! {

/// Modulus of the polynomial byte hash.
pub const HASH_MODULUS: u64 = 1_000_000_007;

/// Polynomial hash of a byte string, reduced modulo `HASH_MODULUS`.
pub open spec fn byte_hash(s: Seq<u8>) -> nat
    decreases s.len(),
{
    if s.len() == 0 {
        0
    } else {
        ((byte_hash(s.drop_last()) * 257 + s.last() as nat + 1) % (HASH_MODULUS as nat)) as nat
    }
}

/// The bucket that holds key `k` in a table of `n` buckets.
pub open spec fn bucket_of(k: Seq<u8>, n: nat) -> int
    recommends
        n > 0,
{
    (byte_hash(k) % n) as int
}

/// Computes `byte_hash` of `bytes[lo..hi]`.
pub fn hash_range(bytes: &[u8], lo: usize, hi: usize) -> (h: u64)
    requires
        lo <= hi <= bytes@.len(),
    ensures
        h as nat == byte_hash(bytes@.subrange(lo as int, hi as int)),
        h < HASH_MODULUS,
{
    let mut h: u64 = 0;
    let mut i: usize = lo;
    assert(bytes@.subrange(lo as int, lo as int) =~= Seq::<u8>::empty());
    while i < hi
        invariant
            lo <= i <= hi <= bytes@.len(),
            h as nat == byte_hash(bytes@.subrange(lo as int, i as int)),
            h < HASH_MODULUS,
        decreases hi - i,
    {
        let ghost prev = bytes@.subrange(lo as int, i as int);
        let ghost next = bytes@.subrange(lo as int, i as int + 1);
        assert(next.drop_last() =~= prev);
        assert(next.last() == bytes@[i as int]);
        h = (h * 257 + bytes[i] as u64 + 1) % HASH_MODULUS;
        i = i + 1;
    }
    h
}

/// True when `a[alo..ahi]` and `b` hold the same bytes.
pub fn range_eq(a: &[u8], alo: usize, ahi: usize, b: &[u8]) -> (r: bool)
    requires
        alo <= ahi <= a@.len(),
    ensures
        r == (a@.subrange(alo as int, ahi as int) == b@),
{
    if ahi - alo != b.len() {
        return false;
    }
    let mut i: usize = 0;
    while i < b.len()
        invariant
            alo <= ahi <= a@.len(),
            ahi - alo == b@.len(),
            0 <= i <= b@.len(),
            forall|j: int| 0 <= j < i ==> a@[alo + j] == b@[j],
        decreases b@.len() - i,
    {
        if a[alo + i] != b[i] {
            assert(a@.subrange(alo as int, ahi as int)[i as int] != b@[i as int]);
            return false;
        }
        i = i + 1;
    }
    assert(a@.subrange(alo as int, ahi as int) =~= b@);
    true
}

/// A table from byte strings to ranks. Each entry sits in the bucket that
/// its hash selects; its contents are `self@`. (vstd specifies `HashMap`
/// only for keys with a key model, such as integers, so a map keyed by
/// `Vec<u8>` could not be reasoned about.)
pub struct ByteTable {
    buckets: Vec<Vec<(Vec<u8>, usize)>>,
    contents: Ghost<Map<Seq<u8>, usize>>,
}

impl View for ByteTable {
    type V = Map<Seq<u8>, usize>;

    closed spec fn view(&self) -> Map<Seq<u8>, usize> {
        self.contents@
    }
}

impl ByteTable {
    /// Every entry sits in its own bucket and agrees with the contents, and
    /// every key of the contents has an entry.
    pub closed spec fn wf(&self) -> bool {
        let n = self.buckets@.len();
        &&& n > 0
        &&& forall|b: int, j: int|
            #![trigger self.buckets@[b]@[j]]
            0 <= b < n && 0 <= j < self.buckets@[b]@.len() ==> {
                let e = self.buckets@[b]@[j];
                &&& self.contents@.contains_key(e.0@)
                &&& self.contents@[e.0@] == e.1
                &&& bucket_of(e.0@, n) == b
            }
        &&& forall|k: Seq<u8>|
            #![trigger self.contents@.contains_key(k)]
            self.contents@.contains_key(k) ==> exists|j: int|
                0 <= j < self.buckets@[bucket_of(k, n)]@.len() && self.buckets@[bucket_of(
                    k,
                    n,
                )]@[j].0@ == k
    }

    /// An empty table with `n` buckets (at least one).
    pub fn with_buckets(n: usize) -> (t: ByteTable)
        ensures
            t.wf(),
            t@ == Map::<Seq<u8>, usize>::empty(),
    {
        let count: usize = if n == 0 {
            1
        } else {
            n
        };
        let mut buckets: Vec<Vec<(Vec<u8>, usize)>> = Vec::new();
        let mut i: usize = 0;
        while i < count
            invariant
                i <= count,
                buckets@.len() == i,
                forall|b: int| 0 <= b < i ==> (#[trigger] buckets@[b])@.len() == 0,
            decreases count - i,
        {
            buckets.push(Vec::new());
            i = i + 1;
        }
        ByteTable { buckets, contents: Ghost(Map::empty()) }
    }

    fn bucket_index(&self, bytes: &[u8], lo: usize, hi: usize) -> (b: usize)
        requires
            self.wf(),
            lo <= hi <= bytes@.len(),
        ensures
            b as int == bucket_of(bytes@.subrange(lo as int, hi as int), self.buckets@.len() as nat),
            b < self.buckets@.len(),
    {
        let h = hash_range(bytes, lo, hi);
        (h % (self.buckets.len() as u64)) as usize
    }

    /// The rank of `bytes[lo..hi]`, if the table holds it.
    pub fn get_range(&self, bytes: &[u8], lo: usize, hi: usize) -> (r: Option<usize>)
        requires
            self.wf(),
            lo <= hi <= bytes@.len(),
        ensures
            r == (if self@.contains_key(bytes@.subrange(lo as int, hi as int)) {
                Some(self@[bytes@.subrange(lo as int, hi as int)])
            } else {
                None::<usize>
            }),
    {
        let ghost key = bytes@.subrange(lo as int, hi as int);
        let b = self.bucket_index(bytes, lo, hi);
        let bucket = &self.buckets[b];
        let mut j: usize = 0;
        while j < bucket.len()
            invariant
                self.wf(),
                b < self.buckets@.len(),
                bucket == &self.buckets@[b as int],
                b as int == bucket_of(key, self.buckets@.len() as nat),
                key == bytes@.subrange(lo as int, hi as int),
                lo <= hi <= bytes@.len(),
                0 <= j <= bucket@.len(),
                forall|i: int| 0 <= i < j ==> bucket@[i].0@ != key,
            decreases bucket@.len() - j,
        {
            if range_eq(bytes, lo, hi, bucket[j].0.as_slice()) {
                assert(self.buckets@[b as int]@[j as int].0@ == key);
                return Some(bucket[j].1);
            }
            j = j + 1;
        }
        proof {
            if self@.contains_key(key) {
                let w = choose|w: int|
                    0 <= w < self.buckets@[b as int]@.len() && self.buckets@[b as int]@[w].0@ == key;
                assert(bucket@[w].0@ != key);
            }
        }
        None
    }

    /// The rank of `key`, if the table holds it.
    pub fn get(&self, key: &[u8]) -> (r: Option<usize>)
        requires
            self.wf(),
        ensures
            r == (if self@.contains_key(key@) {
                Some(self@[key@])
            } else {
                None::<usize>
            }),
    {
        assert(key@.subrange(0, key@.len() as int) =~= key@);
        self.get_range(key, 0, key.len())
    }

    /// Adds a key that the table does not hold yet.
    pub fn insert(&mut self, key: Vec<u8>, rank: usize)
        requires
            old(self).wf(),
            !old(self)@.contains_key(key@),
        ensures
            final(self).wf(),
            final(self)@ == old(self)@.insert(key@, rank),
    {
        let ghost k = key@;
        assert(key@.subrange(0, key@.len() as int) =~= key@);
        let b = self.bucket_index(key.as_slice(), 0, key.len());
        let ghost old_buckets = self.buckets@;
        let ghost n = self.buckets@.len();
        let mut bucket: Vec<(Vec<u8>, usize)> = Vec::new();
        std::mem::swap(&mut bucket, &mut self.buckets[b]);
        bucket.push((key, rank));
        self.buckets.set(b, bucket);
        self.contents = Ghost(self.contents@.insert(k, rank));
        assert forall|bb: int, j: int|
            #![trigger self.buckets@[bb]@[j]]
            0 <= bb < n && 0 <= j < self.buckets@[bb]@.len() implies {
            let e = self.buckets@[bb]@[j];
            &&& self.contents@.contains_key(e.0@)
            &&& self.contents@[e.0@] == e.1
            &&& bucket_of(e.0@, n) == bb
        } by {
            if bb != b as int || j < old_buckets[bb]@.len() {
                assert(self.buckets@[bb]@[j] == old_buckets[bb]@[j]);
                let e = old_buckets[bb]@[j];
                assert(old_buckets[bb]@[j] == e);
            }
        }
        assert forall|kk: Seq<u8>| #[trigger] self.contents@.contains_key(kk) implies exists|j: int|
            0 <= j < self.buckets@[bucket_of(kk, n)]@.len() && self.buckets@[bucket_of(
                kk,
                n,
            )]@[j].0@ == kk by {
            if kk == k {
                let j = old_buckets[b as int]@.len() as int;
                assert(self.buckets@[bucket_of(kk, n)]@[j].0@ == kk);
            } else {
                assert(old(self).contents@.contains_key(kk));
                let bk = bucket_of(kk, n);
                let j = choose|j: int|
                    0 <= j < old_buckets[bk]@.len() && old_buckets[bk]@[j].0@ == kk;
                assert(self.buckets@[bk]@[j] == old_buckets[bk]@[j]);
            }
        }
    }
}

} // verus!
