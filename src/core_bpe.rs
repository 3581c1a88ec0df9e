//! The engine type: tables built from a vocabulary, encoding and decoding.
use crate::engine::{
    all_known, bytes_of, decoded, encode_from, encoded, known, lemma_next_special, mask_of,
    model_wf, next_special, occurs_at, ordinary_from, ordinary_tokens, special_at, utf8_all,
    BpeModel,
};
use crate::merge::{byte_pair_encode, piece_tokens};
use crate::split::{pattern_compiles, regex_spans, Splitter};
use crate::table::{range_eq, ByteTable};
use std::collections::HashMap;
use vstd::prelude::*;
use vstd::slice::slice_to_vec;
use vstd::string::StringSliceAdditionalSpecFns;
use vstd::utf8::encode_utf8;

verus! {

broadcast use vstd::std_specs::hash::group_hash_axioms;

/// Why a list of token ids could not be decoded.
#[derive(Debug, Clone, Copy, PartialEq, Eq)]
pub enum DecodeError {
    /// The id is neither an ordinary nor a special token of the encoding.
    UnknownTokenId(usize),
}

/// Why a vocabulary could not be turned into an engine.
#[derive(Debug, Clone, Copy, PartialEq, Eq)]
pub enum VocabularyError {
    /// Entry `i` repeats the bytes of an earlier entry.
    DuplicateBytes(usize),
    /// Entry `i` repeats the rank of an earlier entry.
    DuplicateRank(usize),
    /// No entry holds this single byte.
    MissingByte(u8),
    /// Special token `j` is empty, or its id is taken by an ordinary token
    /// or by an earlier special token.
    BadSpecial(usize),
    /// The split pattern does not compile.
    BadPattern,
    /// The vocabulary could not be read.
    Unavailable,
}

impl VocabularyError {
    /// A short description of the error.
    pub fn describe(&self) -> (r: &'static str) {
        match self {
            VocabularyError::DuplicateBytes(_) => "two entries hold the same bytes",
            VocabularyError::DuplicateRank(_) => "two entries hold the same rank",
            VocabularyError::MissingByte(_) => "a single byte has no rank",
            VocabularyError::BadSpecial(_) => "a special token is empty or its id is taken",
            VocabularyError::BadPattern => "the split pattern does not compile",
            VocabularyError::Unavailable => "the vocabulary could not be read",
        }
    }
}

/// The byte strings and ranks of a list of entries.
pub open spec fn entry_views(e: Seq<(Vec<u8>, usize)>) -> Seq<(Seq<u8>, usize)> {
    e.map_values(|x: (Vec<u8>, usize)| (x.0@, x.1))
}

/// The table that a list of entries with distinct byte strings describes.
pub open spec fn entries_map(e: Seq<(Seq<u8>, usize)>) -> Map<Seq<u8>, usize>
    decreases e.len(),
{
    if e.len() == 0 {
        Map::empty()
    } else {
        entries_map(e.drop_last()).insert(e.last().0, e.last().1)
    }
}

/// The bytes of each rank that a list of entries with distinct ranks
/// describes.
pub open spec fn entries_ids(e: Seq<(Seq<u8>, usize)>) -> Map<usize, Seq<u8>>
    decreases e.len(),
{
    if e.len() == 0 {
        Map::empty()
    } else {
        entries_ids(e.drop_last()).insert(e.last().1, e.last().0)
    }
}

/// No two entries hold the same bytes or the same rank.
pub open spec fn entries_distinct(e: Seq<(Seq<u8>, usize)>) -> bool {
    forall|i: int, j: int|
        #![trigger e[i], e[j]]
        0 <= i < j < e.len() ==> e[i].0 != e[j].0 && e[i].1 != e[j].1
}

/// The checks that `CoreBpe::new` makes: entries with distinct bytes and
/// distinct ranks that hold every single byte, and non-empty special tokens
/// with distinct ids that no entry holds.
pub open spec fn tables_valid(e: Seq<(Seq<u8>, usize)>, s: Seq<(Seq<u8>, usize)>) -> bool {
    &&& entries_distinct(e)
    &&& forall|x: u8| #[trigger] entries_map(e).contains_key(seq![x])
    &&& forall|j: int| 0 <= j < s.len() ==> (#[trigger] s[j]).0.len() > 0
    &&& forall|i: int, j: int|
        #![trigger e[i], s[j]]
        0 <= i < e.len() && 0 <= j < s.len() ==> e[i].1 != s[j].1
    &&& forall|i: int, j: int|
        #![trigger s[i], s[j]]
        0 <= i < j < s.len() ==> s[i].1 != s[j].1
}

/// The byte strings and ids of a list of special tokens.
pub open spec fn special_views(s: Seq<(String, usize)>) -> Seq<(Seq<u8>, usize)> {
    s.map_values(|x: (String, usize)| (encode_utf8(x.0@), x.1))
}

pub proof fn lemma_entries_map_key(e: Seq<(Seq<u8>, usize)>, k: Seq<u8>)
    requires
        entries_map(e).contains_key(k),
    ensures
        exists|j: int| 0 <= j < e.len() && e[j].0 == k,
    decreases e.len(),
{
    if e.len() > 0 && e.last().0 != k {
        lemma_entries_map_key(e.drop_last(), k);
        let j = choose|j: int| 0 <= j < e.drop_last().len() && e.drop_last()[j].0 == k;
        assert(e[j].0 == k);
    } else if e.len() > 0 {
        assert(e[e.len() - 1].0 == k);
    }
}

pub proof fn lemma_entries_ids_key(e: Seq<(Seq<u8>, usize)>, id: usize)
    requires
        entries_ids(e).contains_key(id),
    ensures
        exists|j: int| 0 <= j < e.len() && e[j].1 == id,
    decreases e.len(),
{
    if e.len() > 0 && e.last().1 != id {
        lemma_entries_ids_key(e.drop_last(), id);
        let j = choose|j: int| 0 <= j < e.drop_last().len() && e.drop_last()[j].1 == id;
        assert(e[j].1 == id);
    } else if e.len() > 0 {
        assert(e[e.len() - 1].1 == id);
    }
}

/// The entries indexed both ways, or the first entry that repeats the
/// bytes or the rank of an earlier one.
#[verifier::rlimit(60)]
fn index_entries(entries: &Vec<(Vec<u8>, usize)>) -> (r: Result<(ByteTable, HashMap<usize, Vec<u8>>), VocabularyError>)
    ensures
        r matches Ok(t) ==> {
            let ev = entry_views(entries@);
            &&& t.0.wf()
            &&& t.0@ == entries_map(ev)
            &&& t.1@.map_values(|v: Vec<u8>| v@) == entries_ids(ev)
            &&& entries_distinct(ev)
            &&& forall|k: Seq<u8>| #[trigger] t.0@.contains_key(k) ==> t.1@.contains_key(t.0@[k]) && t.1@[t.0@[k]]@ == k
            &&& forall|a: int| 0 <= a < ev.len() ==> t.1@.contains_key((#[trigger] ev[a]).1)
            &&& forall|id: usize| #[trigger] t.1@.contains_key(id) ==> exists|q: int| 0 <= q < ev.len() && ev[q].1 == id
        },
        r is Err ==> !entries_distinct(entry_views(entries@)),
        r matches Err(e) ==> (e is DuplicateBytes || e is DuplicateRank),
        r matches Err(VocabularyError::DuplicateBytes(i)) ==> i < entries@.len() && exists|j: int|
            0 <= j < i && entries@[j].0@ == entries@[i as int].0@,
        r matches Err(VocabularyError::DuplicateRank(i)) ==> i < entries@.len() && exists|j: int|
            0 <= j < i && entries@[j].1 == entries@[i as int].1,
{
    let ghost ev = entry_views(entries@);
    let mut encoder = ByteTable::with_buckets(entries.len());
    let mut decoder: HashMap<usize, Vec<u8>> = HashMap::new();
    let mut i: usize = 0;
    while i < entries.len()
        invariant
            ev == entry_views(entries@),
            i <= entries@.len(),
            encoder.wf(),
            encoder@ == entries_map(ev.subrange(0, i as int)),
            forall|k: Seq<u8>| #[trigger] encoder@.contains_key(k) ==> decoder@.contains_key(encoder@[k]) && decoder@[encoder@[k]]@ == k,
            forall|a: int, c: int|
                #![trigger ev[a], ev[c]]
                0 <= a < c < i ==> ev[a].0 != ev[c].0 && ev[a].1 != ev[c].1,
            forall|a: int| 0 <= a < i ==> encoder@.contains_key((#[trigger] ev[a]).0) && decoder@.contains_key(ev[a].1),
            decoder@.map_values(|v: Vec<u8>| v@) == entries_ids(ev.subrange(0, i as int)),
        decreases entries@.len() - i,
    {
        let bytes = &entries[i].0;
        let rank = entries[i].1;
        assert(bytes@ == ev[i as int].0 && rank == ev[i as int].1);
        if encoder.get(bytes.as_slice()).is_some() {
            proof {
                lemma_entries_map_key(ev.subrange(0, i as int), bytes@);
                let j = choose|j: int| 0 <= j < i && ev.subrange(0, i as int)[j].0 == bytes@;
                assert(ev[j].0 == ev[i as int].0);
            }
            return Err(VocabularyError::DuplicateBytes(i));
        }
        if decoder.contains_key(&rank) {
            proof {
                assert(decoder@.map_values(|v: Vec<u8>| v@).contains_key(rank));
                lemma_entries_ids_key(ev.subrange(0, i as int), rank);
                let j = choose|j: int| 0 <= j < i && ev.subrange(0, i as int)[j].1 == rank;
                assert(ev[j].1 == ev[i as int].1);
            }
            return Err(VocabularyError::DuplicateRank(i));
        }
        let ghost prev_enc = encoder@;
        let ghost prev_dec = decoder@;
        encoder.insert(slice_to_vec(bytes.as_slice()), rank);
        decoder.insert(rank, slice_to_vec(bytes.as_slice()));
        assert(ev.subrange(0, i + 1).drop_last() =~= ev.subrange(0, i as int));
        assert(decoder@.map_values(|v: Vec<u8>| v@) =~= prev_dec.map_values(|v: Vec<u8>| v@).insert(rank, bytes@));
        assert forall|a: int| 0 <= a < i + 1 implies encoder@.contains_key((#[trigger] ev[a]).0) && decoder@.contains_key(ev[a].1) by {
            if a < i {
                assert(prev_enc.contains_key(ev[a].0));
                assert(prev_dec.contains_key(ev[a].1));
            }
        }
        assert forall|a: int, c: int|
            #![trigger ev[a], ev[c]]
            0 <= a < c < i + 1 implies ev[a].0 != ev[c].0 && ev[a].1 != ev[c].1 by {
            if c == i {
                assert(prev_enc.contains_key(ev[a].0));
                assert(prev_dec.contains_key(ev[a].1));
            }
        }
        assert forall|k: Seq<u8>| #[trigger] encoder@.contains_key(k) implies decoder@.contains_key(encoder@[k]) && decoder@[encoder@[k]]@ == k by {
            if k != bytes@ {
                assert(prev_enc.contains_key(k));
                assert(prev_dec.contains_key(prev_enc[k]));
            }
        }
        i = i + 1;
    }
    assert(ev.subrange(0, entries@.len() as int) =~= ev);
    assert forall|id: usize| #[trigger] decoder@.contains_key(id) implies exists|q: int| 0 <= q < ev.len() && ev[q].1 == id by {
        assert(decoder@.map_values(|v: Vec<u8>| v@).contains_key(id));
        lemma_entries_ids_key(ev, id);
    }
    Ok((encoder, decoder))
}

/// A byte-pair encoder: ordinary tokens with their ranks, special tokens with
/// their ids, and the pattern that splits text into pieces.
pub struct CoreBpe {
    encoder: ByteTable,
    decoder: HashMap<usize, Vec<u8>>,
    specials: Vec<(Vec<u8>, usize)>,
    splitter: Splitter,
}

impl View for CoreBpe {
    type V = BpeModel;

    closed spec fn view(&self) -> BpeModel {
        BpeModel {
            ranks: self.encoder@,
            ids: self.decoder@.map_values(|v: Vec<u8>| v@),
            specials: self.specials@.map_values(|e: (Vec<u8>, usize)| (e.0@, e.1)),
            pattern: self.splitter.pattern(),
        }
    }
}

impl CoreBpe {
    /// The tables are consistent (see `model_wf`).
    pub closed spec fn wf(&self) -> bool {
        &&& self.encoder.wf()
        &&& model_wf(self@)
    }

    /// A consistent engine has a consistent model.
    pub proof fn lemma_wf(&self)
        requires
            self.wf(),
        ensures
            model_wf(self@),
    {
    }

    /// Builds an engine from ordinary entries (bytes and rank), special
    /// tokens (text and id) and a split pattern, checking that the tables
    /// are consistent.
    pub fn new(entries: Vec<(Vec<u8>, usize)>, specials: Vec<(String, usize)>, pattern: &str) -> (r: Result<CoreBpe, VocabularyError>)
        ensures
            r matches Ok(b) ==> {
                &&& b.wf()
                &&& model_wf(b@)
                &&& b@.ranks == entries_map(entry_views(entries@))
                &&& b@.ids == entries_ids(entry_views(entries@))
                &&& b@.specials == special_views(specials@)
                &&& b@.pattern == pattern@
            },
            r is Ok <==> tables_valid(entry_views(entries@), special_views(specials@)) && pattern_compiles(
                pattern@,
            ),
            r matches Err(VocabularyError::BadPattern) ==> !pattern_compiles(pattern@),
            r matches Err(e) ==> e != VocabularyError::Unavailable,
            r matches Err(VocabularyError::DuplicateBytes(i)) ==> i < entries@.len() && exists|j: int|
                0 <= j < i && entries@[j].0@ == entries@[i as int].0@,
            r matches Err(VocabularyError::DuplicateRank(i)) ==> i < entries@.len() && exists|j: int|
                0 <= j < i && entries@[j].1 == entries@[i as int].1,
            r matches Err(VocabularyError::MissingByte(x)) ==> !entries_map(entry_views(entries@)).contains_key(seq![x]),
            r matches Err(VocabularyError::BadSpecial(j)) ==> j < specials@.len() && {
                let sv = special_views(specials@);
                ||| sv[j as int].0.len() == 0
                ||| exists|i: int| 0 <= i < entries@.len() && entries@[i].1 == sv[j as int].1
                ||| exists|i: int| 0 <= i < j && sv[i].1 == sv[j as int].1
            },
    {
        let ghost ev = entry_views(entries@);
        let (encoder, decoder) = match index_entries(&entries) {
            Ok(t) => t,
            Err(e) => {
                return Err(e);
            },
        };
        let mut x: u16 = 0;
        while x < 256
            invariant
                encoder.wf(),
                encoder@ == entries_map(ev),
                ev == entry_views(entries@),
                x <= 256,
                forall|y: u8| (y as u16) < x ==> #[trigger] encoder@.contains_key(seq![y]),
            decreases 256 - x,
        {
            let one: Vec<u8> = vec![x as u8];
            assert(one@ == seq![x as u8]);
            if encoder.get(one.as_slice()).is_none() {
                return Err(VocabularyError::MissingByte(x as u8));
            }
            x = x + 1;
        }
        let ghost sv = special_views(specials@);
        let mut table: Vec<(Vec<u8>, usize)> = Vec::new();
        let mut j: usize = 0;
        while j < specials.len()
            invariant
                sv == special_views(specials@),
                j <= specials@.len(),
                table@.len() == j,
                forall|q: int| 0 <= q < j ==> (#[trigger] table@[q]).0@ == sv[q].0 && table@[q].1 == sv[q].1,
                forall|q: int| 0 <= q < j ==> (#[trigger] sv[q]).0.len() > 0 && !decoder@.contains_key(sv[q].1),
                forall|q: int, w: int| 0 <= q < j && 0 <= w < j && q != w ==> (#[trigger] sv[q]).1 != (#[trigger] sv[w]).1,
                forall|id: usize| #[trigger] decoder@.contains_key(id) ==> exists|q: int| 0 <= q < entries@.len() && ev[q].1 == id,
                forall|a: int| 0 <= a < entries@.len() ==> decoder@.contains_key((#[trigger] ev[a]).1),
                ev == entry_views(entries@),
            decreases specials@.len() - j,
        {
            let text = specials[j].0.as_str();
            let id = specials[j].1;
            let bytes = slice_to_vec(text.as_bytes());
            assert(bytes@ == sv[j as int].0 && id == sv[j as int].1);
            if bytes.len() == 0 || decoder.contains_key(&id) {
                proof {
                    if decoder@.contains_key(id) {
                        let q = choose|q: int| 0 <= q < entries@.len() && ev[q].1 == id;
                        assert(entries@[q].1 == id);
                        assert(ev[q].1 == sv[j as int].1);
                    }
                }
                return Err(VocabularyError::BadSpecial(j));
            }
            let mut q: usize = 0;
            while q < j
                invariant
                    q <= j,
                    j < specials@.len(),
                    sv == special_views(specials@),
                    id == sv[j as int].1,
                    table@.len() == j,
                    forall|w: int| 0 <= w < j ==> (#[trigger] table@[w]).1 == sv[w].1,
                    forall|w: int| 0 <= w < q ==> (#[trigger] sv[w]).1 != id,
                decreases j - q,
            {
                if table[q].1 == id {
                    assert(sv[q as int].1 == sv[j as int].1);
                    return Err(VocabularyError::BadSpecial(j));
                }
                q = q + 1;
            }
            table.push((bytes, id));
            j = j + 1;
        }
        match Splitter::new(pattern) {
            None => Err(VocabularyError::BadPattern),
            Some(splitter) => {
                assert(tables_valid(ev, sv)) by {
                    assert forall|a: int, q: int|
                        #![trigger ev[a], sv[q]]
                        0 <= a < ev.len() && 0 <= q < sv.len() implies ev[a].1 != sv[q].1 by {
                        assert(decoder@.contains_key(ev[a].1));
                    }
                }
                let b = CoreBpe { encoder, decoder, specials: table, splitter };
                assert(b@.ids =~= entries_ids(ev));
                assert(b@.specials =~= sv);
                assert(b@.ranks == entries_map(ev));
                assert forall|k: Seq<u8>| #[trigger] b@.ranks.contains_key(k) implies b@.ids.contains_key(b@.ranks[k]) && b@.ids[b@.ranks[k]] == k by {
                    assert(encoder@.contains_key(k));
                }
                Ok(b)
            },
        }
    }

    fn append_piece(&self, out: &mut Vec<usize>, hay: &[u8], lo: usize, hi: usize)
        requires
            self.wf(),
            lo <= hi <= hay@.len(),
        ensures
            final(out)@ == old(out)@ + piece_tokens(self@.ranks, hay@.subrange(lo as int, hi as int)),
    {
        let mut toks = byte_pair_encode(&self.encoder, &hay[lo..hi]);
        out.append(&mut toks);
    }

    fn encode_ordinary_bytes(&self, hay: &[u8]) -> (r: Vec<usize>)
        requires
            self.wf(),
        ensures
            r@ == ordinary_tokens(self@, hay@),
    {
        let ghost m = self@;
        let spans = self.splitter.spans(hay);
        let mut out: Vec<usize> = Vec::new();
        let mut k: usize = 0;
        let mut cur: usize = 0;
        loop
            invariant
                self.wf(),
                m == self@,
                spans@ == regex_spans(m.pattern, hay@),
                cur <= hay@.len(),
                k <= spans@.len(),
                out@ + ordinary_from(m, hay@, spans@, k as int, cur as int) == ordinary_tokens(m, hay@),
            ensures
                cur <= hay@.len(),
                out@ + piece_tokens(m.ranks, hay@.subrange(cur as int, hay@.len() as int)) == ordinary_tokens(m, hay@),
            decreases spans@.len() - k,
        {
            if k >= spans.len() {
                break;
            }
            let (s, t) = spans[k];
            if !(cur <= s && s <= t && t <= hay.len()) {
                break;
            }
            let ghost before = out@;
            self.append_piece(&mut out, hay, cur, s);
            self.append_piece(&mut out, hay, s, t);
            assert(before + ordinary_from(m, hay@, spans@, k as int, cur as int) == out@
                + ordinary_from(m, hay@, spans@, k + 1, t as int)) by {
                assert(before + (piece_tokens(m.ranks, hay@.subrange(cur as int, s as int))
                    + piece_tokens(m.ranks, hay@.subrange(s as int, t as int))
                    + ordinary_from(m, hay@, spans@, k + 1, t as int)) =~= out@
                    + ordinary_from(m, hay@, spans@, k + 1, t as int));
            }
            k = k + 1;
            cur = t;
        }
        let ghost before = out@;
        self.append_piece(&mut out, hay, cur, hay.len());
        out
    }

    /// The first allowed special token that occurs at `p`.
    fn special_match_at(&self, hay: &[u8], p: usize, mask: &Vec<bool>) -> (r: Option<usize>)
        requires
            self.wf(),
            p < hay@.len(),
            mask@.len() == self@.specials.len(),
        ensures
            match r {
                None => special_at(self@, hay@, p as int, mask@, 0) is None,
                Some(j) => special_at(self@, hay@, p as int, mask@, 0) == Some(j as int),
            },
    {
        let ghost m = self@;
        let mut j: usize = 0;
        while j < self.specials.len()
            invariant
                self.wf(),
                m == self@,
                p < hay@.len(),
                mask@.len() == m.specials.len(),
                self.specials@.len() == m.specials.len(),
                j <= m.specials.len(),
                special_at(m, hay@, p as int, mask@, 0) == special_at(m, hay@, p as int, mask@, j as int),
            decreases m.specials.len() - j,
        {
            if mask[j] {
                let s = &self.specials[j].0;
                assert(s@ == m.specials[j as int].0);
                if s.len() > 0 && s.len() <= hay.len() - p && range_eq(hay, p, p + s.len(), s.as_slice()) {
                    return Some(j);
                }
            }
            j = j + 1;
        }
        None
    }

    /// The leftmost allowed special token at or after `from`.
    fn find_special(&self, hay: &[u8], from: usize, mask: &Vec<bool>) -> (r: Option<(usize, usize)>)
        requires
            self.wf(),
            mask@.len() == self@.specials.len(),
        ensures
            match r {
                None => next_special(self@, hay@, from as int, mask@) is None,
                Some(f) => next_special(self@, hay@, from as int, mask@) == Some((f.0 as int, f.1 as int)),
            },
    {
        let ghost m = self@;
        let mut p: usize = from;
        while p < hay.len()
            invariant
                self.wf(),
                m == self@,
                mask@.len() == m.specials.len(),
                from <= p,
                next_special(m, hay@, from as int, mask@) == next_special(m, hay@, p as int, mask@),
            decreases hay@.len() - p,
        {
            match self.special_match_at(hay, p, mask) {
                Some(j) => {
                    return Some((p, j));
                },
                None => {
                    p = p + 1;
                },
            }
        }
        None
    }

    fn encode_bytes(&self, hay: &[u8], mask: &Vec<bool>) -> (r: Vec<usize>)
        requires
            self.wf(),
            mask@.len() == self@.specials.len(),
        ensures
            r@ == encode_from(self@, hay@, 0, mask@),
    {
        let ghost m = self@;
        let mut out: Vec<usize> = Vec::new();
        let mut start: usize = 0;
        loop
            invariant
                self.wf(),
                m == self@,
                mask@.len() == m.specials.len(),
                self.specials@.len() == m.specials.len(),
                start <= hay@.len(),
                out@ + encode_from(m, hay@, start as int, mask@) == encode_from(m, hay@, 0, mask@),
            decreases hay@.len() - start,
        {
            proof {
                lemma_next_special(m, hay@, start as int, mask@);
            }
            match self.find_special(hay, start, mask) {
                None => {
                    let mut toks = self.encode_ordinary_bytes(&hay[start..hay.len()]);
                    let ghost before = out@;
                    out.append(&mut toks);
                    assert(out@ == before + encode_from(m, hay@, start as int, mask@));
                    return out;
                },
                Some(f) => {
                    let p = f.0;
                    let j = f.1;
                    let len = self.specials[j].0.len();
                    let hay_len = hay.len();
                    assert(len == m.specials[j as int].0.len());
                    assert(occurs_at(hay@, p as int, m.specials[j as int].0));
                    assert(p + len <= hay_len);
                    let mut toks = self.encode_ordinary_bytes(&hay[start..p]);
                    let ghost before = out@;
                    out.append(&mut toks);
                    out.push(self.specials[j].1);
                    assert(before + encode_from(m, hay@, start as int, mask@) =~= out@ + encode_from(
                        m,
                        hay@,
                        (p + len) as int,
                        mask@,
                    ));
                    start = p + len;
                },
            }
        }
    }

    /// Which of the engine's special tokens `allowed` names.
    fn allowed_mask(&self, allowed: &[&str]) -> (r: Vec<bool>)
        requires
            self.wf(),
        ensures
            r@ == mask_of(self@.specials, utf8_all(allowed@)),
    {
        let ghost m = self@;
        let ghost names = utf8_all(allowed@);
        let mut mask: Vec<bool> = Vec::new();
        let mut j: usize = 0;
        while j < self.specials.len()
            invariant
                m == self@,
                self.specials@.len() == m.specials.len(),
                names == utf8_all(allowed@),
                j <= m.specials.len(),
                mask@ =~= mask_of(m.specials, names).subrange(0, j as int),
            decreases m.specials.len() - j,
        {
            let s = &self.specials[j].0;
            assert(s@ == m.specials[j as int].0);
            let mut found = false;
            let mut k: usize = 0;
            while k < allowed.len()
                invariant
                    names == utf8_all(allowed@),
                    k <= allowed@.len(),
                    s@ == m.specials[j as int].0,
                    found == exists|q: int| 0 <= q < k && names[q] == s@,
                decreases allowed@.len() - k,
            {
                let name = allowed[k].as_bytes();
                assert(name@ == names[k as int]);
                if range_eq(s.as_slice(), 0, s.len(), name) {
                    assert(s@.subrange(0, s@.len() as int) =~= s@);
                    found = true;
                } else {
                    assert(s@.subrange(0, s@.len() as int) =~= s@);
                }
                k = k + 1;
            }
            mask.push(found);
            j = j + 1;
        }
        mask
    }

    /// Encodes `text` treating any special-token text as ordinary text.
    pub fn encode_ordinary(&self, text: &str) -> (r: Vec<usize>)
        requires
            self.wf(),
        ensures
            r@ == ordinary_tokens(self@, text.spec_bytes()),
    {
        self.encode_ordinary_bytes(text.as_bytes())
    }

    /// Encodes `text`, giving each occurrence of a special token named in
    /// `allowed_special` its reserved id.
    pub fn encode(&self, text: &str, allowed_special: &[&str]) -> (r: Vec<usize>)
        requires
            self.wf(),
        ensures
            r@ == encoded(self@, text.spec_bytes(), utf8_all(allowed_special@)),
    {
        let mask = self.allowed_mask(allowed_special);
        self.encode_bytes(text.as_bytes(), &mask)
    }

    /// The number of special tokens of the engine.
    pub fn special_count(&self) -> (r: usize)
        ensures
            r == self@.specials.len(),
    {
        self.specials.len()
    }

    /// Encodes `text`, recognising special token `j` where `mask[j]` holds.
    pub fn encode_masked(&self, text: &str, mask: &Vec<bool>) -> (r: Vec<usize>)
        requires
            self.wf(),
            mask@.len() == self@.specials.len(),
        ensures
            r@ == encode_from(self@, text.spec_bytes(), 0, mask@),
    {
        self.encode_bytes(text.as_bytes(), mask)
    }

    /// Encodes `text` with every special token of the engine recognised.
    pub fn encode_with_special_tokens(&self, text: &str) -> (r: Vec<usize>)
        requires
            self.wf(),
        ensures
            r@ == encode_from(self@, text.spec_bytes(), 0, Seq::new(self@.specials.len(), |j: int| true)),
    {
        let mut mask: Vec<bool> = Vec::new();
        let mut j: usize = 0;
        while j < self.specials.len()
            invariant
                j <= self.specials@.len(),
                mask@ =~= Seq::new(j as nat, |q: int| true),
            decreases self.specials@.len() - j,
        {
            mask.push(true);
            j = j + 1;
        }
        assert(self.specials@.len() == self@.specials.len());
        self.encode_bytes(text.as_bytes(), &mask)
    }

    /// The bytes of one id, if the engine knows it.
    fn token_bytes(&self, t: usize) -> (r: Option<&Vec<u8>>)
        requires
            self.wf(),
        ensures
            r is Some <==> known(self@, t),
            r matches Some(v) ==> v@ == bytes_of(self@, t),
    {
        let ghost m = self@;
        match self.decoder.get(&t) {
            Some(v) => {
                assert(m.ids.contains_key(t));
                return Some(v);
            },
            None => {},
        }
        assert(!m.ids.contains_key(t));
        let mut j: usize = 0;
        while j < self.specials.len()
            invariant
                self.wf(),
                m == self@,
                !m.ids.contains_key(t),
                self.specials@.len() == m.specials.len(),
                j <= m.specials.len(),
                forall|q: int| 0 <= q < j ==> m.specials[q].1 != t,
            decreases m.specials.len() - j,
        {
            if self.specials[j].1 == t {
                assert(m.specials[j as int].1 == t);
                proof {
                    let c = choose|q: int| 0 <= q < m.specials.len() && m.specials[q].1 == t;
                    if c != j {
                        assert(m.specials[c].1 != m.specials[j as int].1);
                    }
                }
                return Some(&self.specials[j].0);
            }
            j = j + 1;
        }
        None
    }

    /// The bytes of `tokens`, or the first id that the engine does not know.
    pub fn decode(&self, tokens: &[usize]) -> (r: Result<Vec<u8>, DecodeError>)
        requires
            self.wf(),
        ensures
            r is Ok <==> all_known(self@, tokens@),
            r matches Ok(v) ==> v@ == decoded(self@, tokens@),
            r matches Err(DecodeError::UnknownTokenId(t)) ==> exists|i: int|
                0 <= i < tokens@.len() && tokens@[i] == t && !known(self@, t),
    {
        let ghost m = self@;
        let mut out: Vec<u8> = Vec::new();
        let mut i: usize = 0;
        while i < tokens.len()
            invariant
                self.wf(),
                m == self@,
                i <= tokens@.len(),
                out@ == decoded(m, tokens@.subrange(0, i as int)),
                all_known(m, tokens@.subrange(0, i as int)),
            decreases tokens@.len() - i,
        {
            let t = tokens[i];
            match self.token_bytes(t) {
                Some(v) => {
                    let mut bytes = slice_to_vec(v.as_slice());
                    out.append(&mut bytes);
                    let ghost next = tokens@.subrange(0, i + 1);
                    assert(next.drop_last() =~= tokens@.subrange(0, i as int));
                    assert(next.last() == t);
                    assert forall|q: int| 0 <= q < next.len() implies known(m, #[trigger] next[q]) by {
                        if q < i {
                            assert(next[q] == tokens@.subrange(0, i as int)[q]);
                        }
                    }
                },
                None => {
                    assert(tokens@[i as int] == t);
                    assert(!all_known(m, tokens@)) by {
                        assert(!known(m, tokens@[i as int]));
                    }
                    return Err(DecodeError::UnknownTokenId(t));
                },
            }
            i = i + 1;
        }
        assert(tokens@.subrange(0, tokens@.len() as int) =~= tokens@);
        Ok(out)
    }
}

} // verus!
