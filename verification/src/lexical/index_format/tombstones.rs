//! Tombstone set: the doc_ids invalidated since the main index was built.
//!
//! On disk the set is a sorted array of little-endian `u32` values.
use vstd::prelude::*;

use crate::lexical::le::{le_u32_at, lemma_u32_roundtrip, push_u32_le, read_u32_le, u32_le};
use crate::types::error::CorruptionKind;

verus! {

/// Maximum tombstone file size: 10 million doc_ids of four bytes.
pub const MAX_TOMBSTONE_BYTES: usize = 40_000_000;

/// `s` is in strictly increasing order.
pub open spec fn strictly_sorted(s: Seq<u32>) -> bool {
    forall|i: int, j: int| 0 <= i < j < s.len() ==> s[i] < s[j]
}

/// The `u32` values stored little-endian in `s`, four bytes each.
pub open spec fn decode_u32s(s: Seq<u8>) -> Seq<u32> {
    Seq::new(s.len() / 4, |i: int| le_u32_at(s, 4 * i))
}

/// The little-endian bytes of a sequence of `u32` values.
pub open spec fn encode_u32s(ids: Seq<u32>) -> Seq<u8>
    decreases ids.len(),
{
    if ids.len() == 0 {
        Seq::empty()
    } else {
        encode_u32s(ids.drop_last()) + u32_le(ids.last())
    }
}

/// Two strictly increasing sequences holding the same values are equal.
pub proof fn lemma_strictly_sorted_unique(a: Seq<u32>, b: Seq<u32>)
    requires
        strictly_sorted(a),
        strictly_sorted(b),
        a.to_set() == b.to_set(),
    ensures
        a == b,
    decreases a.len(),
{
    if a.len() == 0 {
        if b.len() > 0 {
            assert(b.to_set().contains(b[0]));
        }
    } else if b.len() == 0 {
        assert(a.to_set().contains(a[0]));
    } else {
        let la = a.last();
        let lb = b.last();
        assert(a.to_set().contains(la));
        assert(b.to_set().contains(lb));
        assert(b.contains(la));
        assert(a.contains(lb));
        let ia = choose|i: int| 0 <= i < a.len() && a[i] == lb;
        let ib = choose|i: int| 0 <= i < b.len() && b[i] == la;
        assert(la == lb) by {
            if la < lb {
                assert(ib < b.len() - 1 ==> b[ib] < b[b.len() - 1]);
            } else if lb < la {
                assert(ia < a.len() - 1 ==> a[ia] < a[a.len() - 1]);
            }
        }
        let a2 = a.drop_last();
        let b2 = b.drop_last();
        assert(a2.to_set() =~= b2.to_set()) by {
            assert forall|x: u32| a2.to_set().contains(x) implies b2.to_set().contains(x) by {
                let i = choose|i: int| 0 <= i < a2.len() && a2[i] == x;
                assert(a.to_set().contains(x));
                let j = choose|j: int| 0 <= j < b.len() && b[j] == x;
                assert(x < la);
                assert(j != b.len() - 1);
                assert(b2[j] == x);
            }
            assert forall|x: u32| b2.to_set().contains(x) implies a2.to_set().contains(x) by {
                let i = choose|i: int| 0 <= i < b2.len() && b2[i] == x;
                assert(b.to_set().contains(x));
                let j = choose|j: int| 0 <= j < a.len() && a[j] == x;
                assert(x < lb);
                assert(j != a.len() - 1);
                assert(a2[j] == x);
            }
        }
        lemma_strictly_sorted_unique(a2, b2);
        assert(a =~= a2.push(la));
        assert(b =~= b2.push(lb));
    }
}

/// `encode_u32s` spends four bytes per value.
pub proof fn lemma_encode_u32s_len(ids: Seq<u32>)
    ensures
        encode_u32s(ids).len() == 4 * ids.len(),
    decreases ids.len(),
{
    if ids.len() > 0 {
        lemma_encode_u32s_len(ids.drop_last());
    }
}

/// Decoding the bytes of a sequence of `u32` values gives it back.
pub proof fn lemma_u32s_roundtrip(ids: Seq<u32>)
    ensures
        decode_u32s(encode_u32s(ids)) == ids,
    decreases ids.len(),
{
    lemma_encode_u32s_len(ids);
    if ids.len() > 0 {
        let init = ids.drop_last();
        lemma_u32s_roundtrip(init);
        lemma_encode_u32s_len(init);
        let e = encode_u32s(ids);
        assert forall|i: int| 0 <= i < ids.len() implies le_u32_at(e, 4 * i) == ids[i] by {
            if i < ids.len() - 1 {
                let ei = encode_u32s(init);
                assert(le_u32_at(ei, 4 * i) == init[i]);
                assert(e == ei + u32_le(ids.last()));
                assert(e[4 * i] == ei[4 * i]);
                assert(e[4 * i + 1] == ei[4 * i + 1]);
                assert(e[4 * i + 2] == ei[4 * i + 2]);
                assert(e[4 * i + 3] == ei[4 * i + 3]);
            } else {
                lemma_u32_roundtrip(ids.last(), encode_u32s(init), Seq::empty());
                assert(e == encode_u32s(init) + u32_le(ids.last()) + Seq::<u8>::empty());
            }
        }
        assert(decode_u32s(e) =~= ids);
    }
}

/// Set of invalidated doc_ids, kept as a strictly increasing vector.
#[derive(Debug)]
pub struct Tombstones {
    doc_ids: Vec<u32>,
}

impl View for Tombstones {
    type V = Seq<u32>;

    closed spec fn view(&self) -> Seq<u32> {
        self.doc_ids@
    }
}

impl Default for Tombstones {
    fn default() -> (r: Self)
        ensures
            r@ == Seq::<u32>::empty(),
    {
        Tombstones { doc_ids: Vec::new() }
    }
}

impl Tombstones {
    #[verifier::type_invariant]
    spec fn inv(self) -> bool {
        strictly_sorted(self.doc_ids@)
    }

    /// Binary search: `Ok(i)` where the id stands, or `Err(i)` where it
    /// would be inserted to keep the order.
    fn search(&self, doc_id: u32) -> (r: Result<usize, usize>)
        ensures
            match r {
                Ok(i) => i < self@.len() && self@[i as int] == doc_id,
                Err(i) => i <= self@.len() && (forall|k: int| 0 <= k < i ==> self@[k] < doc_id)
                    && (forall|k: int| i <= k < self@.len() ==> self@[k] > doc_id),
            },
    {
        proof {
            use_type_invariant(self);
        }
        let mut lo: usize = 0;
        let mut hi: usize = self.doc_ids.len();
        while lo < hi
            invariant
                lo <= hi <= self.doc_ids@.len(),
                strictly_sorted(self.doc_ids@),
                forall|k: int| 0 <= k < lo ==> self.doc_ids@[k] < doc_id,
                forall|k: int| hi <= k < self.doc_ids@.len() ==> self.doc_ids@[k] > doc_id,
            decreases hi - lo,
        {
            let mid = lo + (hi - lo) / 2;
            let v = self.doc_ids[mid];
            if v == doc_id {
                return Ok(mid);
            } else if v < doc_id {
                lo = mid + 1;
            } else {
                hi = mid;
            }
        }
        Err(lo)
    }

    /// Add a doc_id to the set; adding a present id changes nothing.
    pub fn add(&mut self, doc_id: u32)
        ensures
            strictly_sorted(final(self)@),
            final(self)@.to_set() == old(self)@.to_set().insert(doc_id),
            old(self)@.contains(doc_id) ==> final(self)@ == old(self)@,
            !old(self)@.contains(doc_id) ==> final(self)@.len() == old(self)@.len() + 1,
    {
        proof {
            use_type_invariant(&*self);
        }
        match self.search(doc_id) {
            Ok(_) => {},
            Err(pos) => {
                let ghost before = self.doc_ids@;
                let mut ids: Vec<u32> = Vec::new();
                std::mem::swap(&mut ids, &mut self.doc_ids);
                ids.insert(pos, doc_id);
                assert(ids@ =~= before.insert(pos as int, doc_id));
                assert(strictly_sorted(ids@));
                self.doc_ids = ids;
                assert(self.doc_ids@.to_set() =~= before.to_set().insert(doc_id)) by {
                    assert forall|x: u32| #[trigger] self.doc_ids@.to_set().contains(x) implies before.to_set().insert(doc_id).contains(x) by {
                        let i = choose|i: int| 0 <= i < self.doc_ids@.len() && self.doc_ids@[i] == x;
                        if i < pos {
                            assert(before[i] == x);
                        } else if i > pos {
                            assert(before[i - 1] == x);
                        }
                    }
                    assert forall|x: u32| before.to_set().insert(doc_id).contains(x) implies #[trigger] self.doc_ids@.to_set().contains(x) by {
                        if x == doc_id {
                            assert(self.doc_ids@[pos as int] == x);
                        } else {
                            let i = choose|i: int| 0 <= i < before.len() && before[i] == x;
                            if i < pos {
                                assert(self.doc_ids@[i] == x);
                            } else {
                                assert(self.doc_ids@[i + 1] == x);
                            }
                        }
                    }
                }
            },
        }
        proof {
            use_type_invariant(&*self);
        }
    }

    /// Whether the given doc_id is tombstoned.
    pub fn contains(&self, doc_id: u32) -> (r: bool)
        ensures
            r == self@.contains(doc_id),
            strictly_sorted(self@),
    {
        proof {
            use_type_invariant(self);
        }
        match self.search(doc_id) {
            Ok(_) => true,
            Err(pos) => {
                proof {
                    if self@.contains(doc_id) {
                        let i = choose|i: int| 0 <= i < self@.len() && self@[i] == doc_id;
                        assert(i < pos || i >= pos);
                    }
                }
                false
            },
        }
    }

    /// Whether the set is empty.
    pub fn is_empty(&self) -> (r: bool)
        ensures
            r == (self@.len() == 0),
            strictly_sorted(self@),
    {
        proof {
            use_type_invariant(self);
        }
        self.doc_ids.len() == 0
    }

    /// The number of tombstoned doc_ids.
    pub fn len(&self) -> (r: usize)
        ensures
            r == self@.len(),
            strictly_sorted(self@),
    {
        proof {
            use_type_invariant(self);
        }
        self.doc_ids.len()
    }

    /// The file contents: the doc_ids in increasing order, four little-endian
    /// bytes each.
    pub fn to_bytes(&self) -> (r: Vec<u8>)
        ensures
            r@ == encode_u32s(self@),
            strictly_sorted(self@),
    {
        proof {
            use_type_invariant(self);
        }
        let mut out: Vec<u8> = Vec::new();
        let mut i: usize = 0;
        while i < self.doc_ids.len()
            invariant
                i <= self.doc_ids@.len(),
                out@ == encode_u32s(self.doc_ids@.take(i as int)),
            decreases self.doc_ids@.len() - i,
        {
            assert(self.doc_ids@.take(i as int + 1).drop_last() =~= self.doc_ids@.take(i as int));
            push_u32_le(&mut out, self.doc_ids[i]);
            i = i + 1;
        }
        assert(self.doc_ids@.take(self.doc_ids@.len() as int) =~= self.doc_ids@);
        out
    }

    /// Parse the file contents: reject files over the size limit or whose
    /// size is not a multiple of four; otherwise the set of the stored values.
    pub fn from_bytes(bytes: &[u8]) -> (r: Result<Self, CorruptionKind>)
        ensures
            bytes@.len() > MAX_TOMBSTONE_BYTES ==> r == Err::<Self, CorruptionKind>(
                CorruptionKind::TombstonesTooLarge { size: bytes@.len() as usize },
            ),
            bytes@.len() <= MAX_TOMBSTONE_BYTES && bytes@.len() % 4 != 0 ==> r == Err::<
                Self,
                CorruptionKind,
            >(CorruptionKind::TombstonesMisaligned { size: bytes@.len() as usize }),
            bytes@.len() <= MAX_TOMBSTONE_BYTES && bytes@.len() % 4 == 0 ==> (r matches Ok(t) && strictly_sorted(t@)
                && t@.to_set() == decode_u32s(bytes@).to_set()),
    {
        let n = bytes.len();
        if n > MAX_TOMBSTONE_BYTES {
            return Err(CorruptionKind::TombstonesTooLarge { size: n });
        }
        if n % 4 != 0 {
            return Err(CorruptionKind::TombstonesMisaligned { size: n });
        }
        let mut t = Tombstones::default();
        let mut i: usize = 0;
        while i < n / 4
            invariant
                n == bytes@.len(),
                n % 4 == 0,
                i <= n / 4,
                strictly_sorted(t@),
                t@.to_set() == decode_u32s(bytes@).take(i as int).to_set(),
            decreases n / 4 - i,
        {
            let id = read_u32_le(bytes, 4 * i);
            let ghost before = t@;
            t.add(id);
            assert(decode_u32s(bytes@).take(i as int + 1) =~= decode_u32s(bytes@).take(i as int).push(id));
            assert(decode_u32s(bytes@).take(i as int + 1).to_set() =~= decode_u32s(bytes@).take(i as int).to_set().insert(id)) by {
                decode_u32s(bytes@).take(i as int).lemma_push_to_set_commute(id);
            }
            i = i + 1;
        }
        assert(decode_u32s(bytes@).take((n / 4) as int) =~= decode_u32s(bytes@));
        Ok(t)
    }
}

/// Saving a tombstone set and loading the bytes back gives the same set:
/// the same doc_ids in the same order, so the same length and the same
/// membership. (Every set's ids are strictly increasing, as `to_bytes`
/// states, and so are those of a loaded set, as `from_bytes` states.)
pub proof fn lemma_tombstones_roundtrip(saved: Seq<u32>, loaded: Seq<u32>)
    requires
        strictly_sorted(saved),
        strictly_sorted(loaded),
        loaded.to_set() == decode_u32s(encode_u32s(saved)).to_set(),
    ensures
        loaded == saved,
        loaded.len() == saved.len(),
        forall|x: u32| loaded.contains(x) <==> saved.contains(x),
{
    lemma_u32s_roundtrip(saved);
    lemma_strictly_sorted_unique(loaded, saved);
}

/// After adding a doc_id, the set contains it.
pub proof fn lemma_add_then_contains(before: Seq<u32>, after: Seq<u32>, doc_id: u32)
    requires
        after.to_set() == before.to_set().insert(doc_id),
    ensures
        after.contains(doc_id),
{
    assert(after.to_set().contains(doc_id));
}

} // verus!
