//! Posting lists accumulated while an index is built: one list per n-gram
//! hash, found again through an Fx hash map, and handed out in increasing
//! hash order when the build is finished.
use rustc_hash::FxHashMap;
use vstd::prelude::*;

use crate::fx_map::{fx_get, fx_insert};
use super::index_format::writer::index_model;
use super::{Ngram, PostingEntry};

verus! {

broadcast use vstd::std_specs::hash::group_hash_axioms;

/// Keys strictly increase along the lists.
pub open spec fn keys_increasing(es: Seq<(u64, Seq<PostingEntry>)>) -> bool {
    forall|i: int, j: int| 0 <= i < j < es.len() ==> es[i].0 < es[j].0
}

/// The lists as a map from n-gram hash to postings.
pub open spec fn lists_map(es: Seq<(u64, Seq<PostingEntry>)>) -> Map<u64, Seq<PostingEntry>> {
    Map::new(
        |h: u64| exists|i: int| 0 <= i < es.len() && es[i].0 == h,
        |h: u64| es[choose|i: int| 0 <= i < es.len() && es[i].0 == h].1,
    )
}

/// Append posting `p` to the list of `h`, starting a list when there is none.
pub open spec fn map_add(m: Map<u64, Seq<PostingEntry>>, h: u64, p: PostingEntry) -> Map<
    u64,
    Seq<PostingEntry>,
> {
    m.insert(
        h,
        if m.contains_key(h) {
            m[h].push(p)
        } else {
            seq![p]
        },
    )
}

/// Append each `(hash, posting)` event in order.
pub open spec fn map_add_all(m: Map<u64, Seq<PostingEntry>>, events: Seq<(u64, PostingEntry)>) -> Map<
    u64,
    Seq<PostingEntry>,
>
    decreases events.len(),
{
    if events.len() == 0 {
        m
    } else {
        map_add(map_add_all(m, events.drop_last()), events.last().0, events.last().1)
    }
}

/// No key occurs twice along the lists.
pub open spec fn keys_distinct(es: Seq<(u64, Seq<PostingEntry>)>) -> bool {
    forall|i: int, j: int| 0 <= i < j < es.len() ==> es[i].0 != es[j].0
}

/// Values never decrease along `s`.
pub open spec fn ascending(s: Seq<u64>) -> bool {
    forall|i: int, j: int| 0 <= i <= j < s.len() ==> s[i] <= s[j]
}

/// In lists with distinct keys, the list at `i` is the map's list for its
/// key.
pub proof fn lemma_lists_map_at(es: Seq<(u64, Seq<PostingEntry>)>, i: int)
    requires
        keys_distinct(es),
        0 <= i < es.len(),
    ensures
        lists_map(es).contains_key(es[i].0),
        lists_map(es)[es[i].0] == es[i].1,
{
    let k = es[i].0;
    assert(exists|j: int| 0 <= j < es.len() && es[j].0 == k);
    let j = choose|j: int| 0 <= j < es.len() && es[j].0 == k;
    if j < i {
        assert(es[j].0 != es[i].0);
    } else if i < j {
        assert(es[i].0 != es[j].0);
    }
}

/// Increasing keys are distinct keys.
pub proof fn lemma_increasing_distinct(es: Seq<(u64, Seq<PostingEntry>)>)
    requires
        keys_increasing(es),
    ensures
        keys_distinct(es),
{
    assert forall|i: int, j: int| 0 <= i < j < es.len() implies es[i].0 != es[j].0 by {
        assert(es[i].0 < es[j].0);
    }
}

/// Merge two ascending runs into one holding the values of both.
fn merge_ascending(a: Vec<u64>, b: Vec<u64>) -> (r: Vec<u64>)
    requires
        ascending(a@),
        ascending(b@),
    ensures
        ascending(r@),
        r@.to_multiset() == a@.to_multiset().add(b@.to_multiset()),
{
    broadcast use vstd::multiset::group_multiset_axioms;
    broadcast use vstd::seq_lib::group_to_multiset_ensures;

    let mut out: Vec<u64> = Vec::new();
    let mut i: usize = 0;
    let mut j: usize = 0;
    proof {
        assert(a@.take(0) =~= Seq::<u64>::empty());
        assert(b@.take(0) =~= Seq::<u64>::empty());
        assert(out@.to_multiset() =~= a@.take(0).to_multiset().add(b@.take(0).to_multiset()));
    }
    while i < a.len() || j < b.len()
        invariant
            i <= a@.len(),
            j <= b@.len(),
            ascending(a@),
            ascending(b@),
            ascending(out@),
            out@.to_multiset() == a@.take(i as int).to_multiset().add(b@.take(j as int).to_multiset()),
            out@.len() > 0 && i < a@.len() ==> out@.last() <= a@[i as int],
            out@.len() > 0 && j < b@.len() ==> out@.last() <= b@[j as int],
        decreases a@.len() + b@.len() - i - j,
    {
        let from_a = if i < a.len() && j < b.len() {
            a[i] <= b[j]
        } else {
            i < a.len()
        };
        let ghost before = out@;
        if from_a {
            let x = a[i];
            proof {
                assert(a@.take(i + 1) =~= a@.take(i as int).push(x));
                vstd::seq_lib::to_multiset_build(a@.take(i as int), x);
            }
            out.push(x);
            i = i + 1;
            proof {
                assert(out@ =~= before.push(x));
                vstd::seq_lib::to_multiset_build(before, x);
                assert(out@.to_multiset() =~= a@.take(i as int).to_multiset().add(
                    b@.take(j as int).to_multiset(),
                ));
                assert forall|p: int, q: int| 0 <= p <= q < out@.len() implies out@[p] <= out@[q] by {
                    if q == out@.len() - 1 && p < q {
                        assert(before[p] <= before.last());
                    }
                }
                if i < a@.len() {
                    assert(a@[i - 1] <= a@[i as int]);
                }
            }
        } else {
            let x = b[j];
            proof {
                assert(b@.take(j + 1) =~= b@.take(j as int).push(x));
                vstd::seq_lib::to_multiset_build(b@.take(j as int), x);
            }
            out.push(x);
            j = j + 1;
            proof {
                assert(out@ =~= before.push(x));
                vstd::seq_lib::to_multiset_build(before, x);
                assert(out@.to_multiset() =~= a@.take(i as int).to_multiset().add(
                    b@.take(j as int).to_multiset(),
                ));
                assert forall|p: int, q: int| 0 <= p <= q < out@.len() implies out@[p] <= out@[q] by {
                    if q == out@.len() - 1 && p < q {
                        assert(before[p] <= before.last());
                    }
                }
                if j < b@.len() {
                    assert(b@[j - 1] <= b@[j as int]);
                }
            }
        }
    }
    proof {
        assert(a@.take(a@.len() as int) =~= a@);
        assert(b@.take(b@.len() as int) =~= b@);
    }
    out
}

/// The values of `v` in ascending order.
fn sort_ascending(v: Vec<u64>) -> (r: Vec<u64>)
    ensures
        ascending(r@),
        r@.to_multiset() == v@.to_multiset(),
    decreases v@.len(),
{
    if v.len() <= 1 {
        return v;
    }
    let ghost whole = v@;
    let mid = v.len() / 2;
    let mut left = v;
    let right = left.split_off(mid);
    proof {
        assert(whole =~= left@ + right@);
        vstd::seq_lib::lemma_multiset_commutative(left@, right@);
    }
    let left_sorted = sort_ascending(left);
    let right_sorted = sort_ascending(right);
    merge_ascending(left_sorted, right_sorted)
}

/// Posting lists keyed by n-gram hash: the hashes in the order they first
/// came, their lists beside them, and a map from each hash to its slot.
pub struct PostingLists {
    keys: Vec<u64>,
    lists: Vec<Vec<PostingEntry>>,
    slots: FxHashMap<u64, usize>,
}

impl PostingLists {
    /// The lists, in the order their hashes first came.
    pub closed spec fn entries(self) -> Seq<(u64, Seq<PostingEntry>)> {
        Seq::new(self.keys@.len(), |i: int| (self.keys@[i], self.lists@[i]@))
    }

    /// Every hash has one list, and the slot map finds it.
    pub closed spec fn wf(self) -> bool {
        &&& self.keys@.len() == self.lists@.len()
        &&& keys_distinct(self.entries())
        &&& forall|h: u64|
            #![trigger self.slots@.contains_key(h)]
            self.slots@.contains_key(h) ==> self.slots@[h] < self.keys@.len() && self.keys@[self.slots@[h] as int] == h
        &&& forall|i: int| 0 <= i < self.keys@.len() ==> self.slots@.contains_key(#[trigger] self.keys@[i])
    }

    /// No lists.
    pub fn new() -> (r: Self)
        ensures
            r.wf(),
            r.entries().len() == 0,
            lists_map(r.entries()) == Map::<u64, Seq<PostingEntry>>::empty(),
    {
        let r = PostingLists { keys: Vec::new(), lists: Vec::new(), slots: FxHashMap::default() };
        assert(r.entries() =~= Seq::<(u64, Seq<PostingEntry>)>::empty());
        assert(lists_map(r.entries()) =~= Map::<u64, Seq<PostingEntry>>::empty());
        r
    }

    /// Append posting `p` to the list of `ngram`, starting one when needed.
    pub fn add(&mut self, ngram: Ngram, p: PostingEntry)
        requires
            old(self).wf(),
        ensures
            final(self).wf(),
            lists_map(final(self).entries()) == map_add(
                lists_map(old(self).entries()),
                ngram@,
                p,
            ),
    {
        let h = ngram.as_u64();
        let ghost es = self.entries();
        let ghost m = lists_map(es);
        match fx_get(&self.slots, &h) {
            Some(slot_ref) => {
                let slot = *slot_ref;
                let ghost old_list = self.lists@[slot as int]@;
                self.lists[slot].push(p);
                let ghost es2 = self.entries();
                assert(es2 =~= es.update(slot as int, (h, old_list.push(p))));
                proof {
                    lemma_lists_map_at(es, slot as int);
                    let target = map_add(m, h, p);
                    assert forall|k: u64| #[trigger] lists_map(es2).contains_key(k) <==> target.contains_key(k) by {
                        if exists|j: int| 0 <= j < es2.len() && es2[j].0 == k {
                            let j = choose|j: int| 0 <= j < es2.len() && es2[j].0 == k;
                            assert(es[j].0 == k);
                        }
                        if exists|j: int| 0 <= j < es.len() && es[j].0 == k {
                            let j = choose|j: int| 0 <= j < es.len() && es[j].0 == k;
                            assert(es2[j].0 == k);
                        }
                    }
                    assert forall|k: u64| #[trigger] lists_map(es2).contains_key(k) implies lists_map(es2)[k] == target[k] by {
                        let j = choose|j: int| 0 <= j < es2.len() && es2[j].0 == k;
                        lemma_lists_map_at(es2, j);
                        if j != slot {
                            lemma_lists_map_at(es, j);
                        }
                    }
                    assert(lists_map(es2) =~= target);
                }
            },
            None => {
                let len = self.keys.len();
                let mut fresh: Vec<PostingEntry> = Vec::new();
                fresh.push(p);
                let ghost old_keys = self.keys@;
                self.keys.push(h);
                self.lists.push(fresh);
                fx_insert(&mut self.slots, h, len);
                let ghost es2 = self.entries();
                assert(es2 =~= es.push((h, seq![p])));
                proof {
                    assert(!m.contains_key(h)) by {
                        if exists|j: int| 0 <= j < es.len() && es[j].0 == h {
                            let j = choose|j: int| 0 <= j < es.len() && es[j].0 == h;
                            assert(old(self).slots@.contains_key(old_keys[j]));
                        }
                    }
                    assert forall|i: int, j: int| 0 <= i < j < es2.len() implies es2[i].0 != es2[j].0 by {
                        if j == es.len() {
                            assert(es[i].0 == es2[i].0);
                            assert(m.contains_key(es[i].0));
                        }
                    }
                    assert forall|i: int| 0 <= i < self.keys@.len() implies self.slots@.contains_key(#[trigger] self.keys@[i]) by {
                        if i < old_keys.len() {
                            assert(old(self).slots@.contains_key(old_keys[i]));
                        }
                    }
                    assert forall|k: u64| #![trigger self.slots@.contains_key(k)] self.slots@.contains_key(k) implies self.slots@[k] < self.keys@.len() && self.keys@[self.slots@[k] as int] == k by {
                        if k != h {
                            assert(old(self).slots@.contains_key(k));
                        }
                    }
                    let target = map_add(m, h, p);
                    assert(es2[es.len() as int].0 == h);
                    assert forall|k: u64| #[trigger] lists_map(es2).contains_key(k) <==> target.contains_key(k) by {
                        if k == h {
                            assert(es2[es.len() as int].0 == k);
                        }
                        if exists|j: int| 0 <= j < es2.len() && es2[j].0 == k {
                            let j = choose|j: int| 0 <= j < es2.len() && es2[j].0 == k;
                            if j < es.len() {
                                assert(es[j].0 == k);
                            }
                        }
                        if exists|j: int| 0 <= j < es.len() && es[j].0 == k {
                            let j = choose|j: int| 0 <= j < es.len() && es[j].0 == k;
                            assert(es2[j].0 == k);
                        }
                    }
                    assert forall|k: u64| #[trigger] lists_map(es2).contains_key(k) implies lists_map(es2)[k] == target[k] by {
                        let j = choose|j: int| 0 <= j < es2.len() && es2[j].0 == k;
                        lemma_lists_map_at(es2, j);
                        if j < es.len() {
                            lemma_lists_map_at(es, j);
                        }
                    }
                    assert(lists_map(es2) =~= target);
                }
            },
        }
    }

    /// The lists in increasing hash order, ready to be encoded.
    pub fn into_sorted(self) -> (r: Vec<(Ngram, Vec<PostingEntry>)>)
        requires
            self.wf(),
        ensures
            keys_increasing(index_model(r@)),
            lists_map(index_model(r@)) == lists_map(self.entries()),
    {
        broadcast use vstd::multiset::group_multiset_axioms;
        broadcast use vstd::seq_lib::group_to_multiset_ensures;

        let ghost es = self.entries();
        let ghost orig = self.lists@;
        let PostingLists { keys, mut lists, slots } = self;
        let ghost key_seq = keys@;
        let sorted = sort_ascending(keys);
        proof {
            assert(key_seq.no_duplicates()) by {
                assert forall|i: int, j: int| 0 <= i < key_seq.len() && 0 <= j < key_seq.len() && i != j implies key_seq[i] != key_seq[j] by {
                    if i < j {
                        assert(es[i].0 != es[j].0);
                    } else {
                        assert(es[j].0 != es[i].0);
                    }
                }
            }
            key_seq.lemma_multiset_has_no_duplicates();
            sorted@.lemma_multiset_has_no_duplicates_conv();
            vstd::seq_lib::to_multiset_len(sorted@);
            vstd::seq_lib::to_multiset_len(key_seq);
        }
        let mut out: Vec<(Ngram, Vec<PostingEntry>)> = Vec::new();
        let mut k: usize = 0;
        while k < sorted.len()
            invariant
                0 <= k <= sorted@.len(),
                sorted@.len() == key_seq.len(),
                ascending(sorted@),
                sorted@.no_duplicates(),
                sorted@.to_multiset() == key_seq.to_multiset(),
                key_seq.len() == orig.len(),
                lists@.len() == orig.len(),
                es == Seq::new(key_seq.len(), |i: int| (key_seq[i], orig[i]@)),
                keys_distinct(es),
                forall|h: u64|
                    #![trigger slots@.contains_key(h)]
                    slots@.contains_key(h) ==> slots@[h] < key_seq.len() && key_seq[slots@[h] as int] == h,
                forall|i: int| 0 <= i < key_seq.len() ==> slots@.contains_key(#[trigger] key_seq[i]),
                forall|m: int|
                    k <= m < sorted@.len() ==> lists@[slots@[#[trigger] sorted@[m]] as int] == orig[slots@[sorted@[m]] as int],
                index_model(out@) == Seq::new(k as nat, |m: int| (sorted@[m], orig[slots@[sorted@[m]] as int]@)),
            decreases sorted@.len() - k,
        {
            let h = sorted[k];
            proof {
                vstd::seq_lib::to_multiset_contains(sorted@, h);
                vstd::seq_lib::to_multiset_contains(key_seq, h);
                let i = choose|i: int| 0 <= i < key_seq.len() && key_seq[i] == h;
                assert(slots@.contains_key(key_seq[i]));
            }
            let slot = match fx_get(&slots, &h) {
                Some(s) => *s,
                None => 0,
            };
            let mut list: Vec<PostingEntry> = Vec::new();
            let ghost lists_before = lists@;
            assert(lists_before[slots@[sorted@[k as int]] as int] == orig[slots@[sorted@[k as int]] as int]);
            std::mem::swap(&mut list, &mut lists[slot]);
            assert(list == orig[slot as int]);
            let ghost before = out@;
            let ng = Ngram::from_hash(h);
            out.push((ng, list));
            proof {
                assert forall|m: int| k + 1 <= m < sorted@.len() implies lists@[slots@[#[trigger] sorted@[m]] as int] == orig[slots@[sorted@[m]] as int] by {
                    assert(slots@.contains_key(sorted@[m])) by {
                        vstd::seq_lib::to_multiset_contains(sorted@, sorted@[m]);
                        vstd::seq_lib::to_multiset_contains(key_seq, sorted@[m]);
                        let i = choose|i: int| 0 <= i < key_seq.len() && key_seq[i] == sorted@[m];
                        assert(slots@.contains_key(key_seq[i]));
                    }
                    assert(sorted@[m] != sorted@[k as int]);
                }
                assert(out@ =~= before.push((ng, list)));
                assert(index_model(out@) =~= index_model(before).push((h, list@)));
                assert(slot == slots@[h]);
                assert(index_model(out@) =~= Seq::new((k + 1) as nat, |m: int| (sorted@[m], orig[slots@[sorted@[m]] as int]@)));
            }
            k = k + 1;
        }
        let ghost rs = index_model(out@);
        proof {
            assert forall|i: int, j: int| 0 <= i < j < rs.len() implies rs[i].0 < rs[j].0 by {
                assert(sorted@[i] <= sorted@[j]);
                assert(sorted@[i] != sorted@[j]);
            }
            assert(keys_distinct(rs));
            let target = lists_map(es);
            assert forall|h: u64| #[trigger] lists_map(rs).contains_key(h) <==> target.contains_key(h) by {
                if exists|m: int| 0 <= m < rs.len() && rs[m].0 == h {
                    let m = choose|m: int| 0 <= m < rs.len() && rs[m].0 == h;
                    vstd::seq_lib::to_multiset_contains(sorted@, h);
                    vstd::seq_lib::to_multiset_contains(key_seq, h);
                    let i = choose|i: int| 0 <= i < key_seq.len() && key_seq[i] == h;
                    assert(es[i].0 == h);
                }
                if exists|i: int| 0 <= i < es.len() && es[i].0 == h {
                    let i = choose|i: int| 0 <= i < es.len() && es[i].0 == h;
                    assert(key_seq[i] == h);
                    vstd::seq_lib::to_multiset_contains(sorted@, h);
                    vstd::seq_lib::to_multiset_contains(key_seq, h);
                    let m = choose|m: int| 0 <= m < sorted@.len() && sorted@[m] == h;
                    assert(rs[m].0 == h);
                }
            }
            assert forall|h: u64| #[trigger] lists_map(rs).contains_key(h) implies lists_map(rs)[h] == target[h] by {
                let m = choose|m: int| 0 <= m < rs.len() && rs[m].0 == h;
                lemma_lists_map_at(rs, m);
                let s = slots@[h] as int;
                assert(slots@.contains_key(h)) by {
                    vstd::seq_lib::to_multiset_contains(sorted@, h);
                    vstd::seq_lib::to_multiset_contains(key_seq, h);
                    let i = choose|i: int| 0 <= i < key_seq.len() && key_seq[i] == h;
                    assert(slots@.contains_key(key_seq[i]));
                }
                assert(es[s].0 == h);
                lemma_lists_map_at(es, s);
            }
            assert(lists_map(rs) =~= target);
        }
        out
    }
}

} // verus!
