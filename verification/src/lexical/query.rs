//! Query evaluation, up to scoring: the query's n-grams, and for each of
//! them the documents it occurs in with their per-field term frequencies,
//! from the main index (without tombstoned documents) and the delta.
//! Scores are computed from these by the caller; results are then cut to
//! the requested page.
use rustc_hash::FxHashMap;
use crate::fx_map::{fx_get, fx_insert};
use vstd::prelude::*;
use vstd::string::StringSliceAdditionalSpecFns;

use crate::types::query::{field_of_code, SearchField, SearchQuery};

use super::index_format::delta::{delta_records, postings_for, DeltaReader};
use super::index_format::reader::{read_postings, table_entry, table_sorted, IndexReader};
use super::index_format::tombstones::Tombstones;
use super::ngram::{extract_query_ngrams, query_ngrams};
use super::{Ngram, PostingEntry};

verus! {

broadcast use vstd::std_specs::hash::group_hash_axioms;

/// A document with the `(field, term frequency)` pairs of one n-gram in it.
pub type TermDocs = Vec<(u32, Vec<(SearchField, u16)>)>;

/// The postings that count, as `(doc_id, (field, tf))`: those whose field
/// code is known and whose document is not in `dead`, in order.
pub open spec fn live_events(ps: Seq<PostingEntry>, dead: Seq<u32>) -> Seq<(u32, (SearchField, u16))>
    decreases ps.len(),
{
    if ps.len() == 0 {
        Seq::empty()
    } else {
        let prev = live_events(ps.drop_last(), dead);
        let p = ps.last();
        match field_of_code(p.field_id) {
            Some(f) => if dead.contains(p.doc_id) {
                prev
            } else {
                prev.push((p.doc_id, (f, p.tf)))
            },
            None => prev,
        }
    }
}

/// Group events by document, documents in order of first occurrence, each
/// with its pairs in order.
pub open spec fn group_by_doc(ev: Seq<(u32, (SearchField, u16))>) -> Seq<
    (u32, Seq<(SearchField, u16)>),
>
    decreases ev.len(),
{
    if ev.len() == 0 {
        Seq::empty()
    } else {
        let acc = group_by_doc(ev.drop_last());
        let e = ev.last();
        if exists|j: int| 0 <= j < acc.len() && acc[j].0 == e.0 {
            let j = choose|j: int| 0 <= j < acc.len() && acc[j].0 == e.0;
            acc.update(j, (e.0, acc[j].1.push(e.1)))
        } else {
            acc.push((e.0, seq![e.1]))
        }
    }
}

/// The documents of one n-gram: its main-index postings without the
/// tombstoned documents, then its delta postings, grouped by document.
pub open spec fn term_docs(main: Seq<PostingEntry>, dead: Seq<u32>, delta: Seq<PostingEntry>) -> Seq<
    (u32, Seq<(SearchField, u16)>),
> {
    group_by_doc(live_events(main, dead) + live_events(delta, Seq::empty()))
}

/// The view of grouped documents.
pub open spec fn term_docs_view(r: Seq<(u32, Vec<(SearchField, u16)>)>) -> Seq<
    (u32, Seq<(SearchField, u16)>),
> {
    r.map_values(|x: (u32, Vec<(SearchField, u16)>)| (x.0, x.1@))
}

/// Document ids of grouped documents are pairwise distinct.
pub open spec fn docs_distinct(g: Seq<(u32, Seq<(SearchField, u16)>)>) -> bool {
    forall|i: int, j: int| 0 <= i < j < g.len() ==> g[i].0 != g[j].0
}

/// Add one event to the grouping.
fn group_add(
    result: &mut TermDocs,
    index: &mut FxHashMap<u32, usize>,
    doc: u32,
    item: (SearchField, u16),
    Ghost(done): Ghost<Seq<(u32, (SearchField, u16))>>,
)
    requires
        term_docs_view(old(result)@) == group_by_doc(done),
        docs_distinct(group_by_doc(done)),
        forall|d: u32|
            #![trigger old(index)@.contains_key(d)]
            old(index)@.contains_key(d) ==> old(index)@[d] < old(result)@.len() && old(result)@[old(index)@[d] as int].0 == d,
        forall|j: int|
            0 <= j < old(result)@.len() ==> old(index)@.contains_key(#[trigger] old(result)@[j].0),
    ensures
        term_docs_view(final(result)@) == group_by_doc(done.push((doc, item))),
        docs_distinct(group_by_doc(done.push((doc, item)))),
        forall|d: u32|
            #![trigger final(index)@.contains_key(d)]
            final(index)@.contains_key(d) ==> final(index)@[d] < final(result)@.len() && final(result)@[final(index)@[d] as int].0 == d,
        forall|j: int|
            0 <= j < final(result)@.len() ==> final(index)@.contains_key(
                #[trigger] final(result)@[j].0,
            ),
{
    let ghost acc = group_by_doc(done);
    let ghost ev = done.push((doc, item));
    assert(ev.drop_last() =~= done);
    assert(ev.last() == (doc, item));
    match fx_get(index, &doc) {
        Some(j_ref) => {
            let j = *j_ref;
            let ghost before = result@;
            result[j].1.push(item);
            proof {
                assert(acc[j as int].0 == doc);
                let jc = choose|k: int| 0 <= k < acc.len() && acc[k].0 == doc;
                assert(jc == j);
                assert(term_docs_view(result@) =~= acc.update(j as int, (doc, acc[j as int].1.push(item))));
                assert forall|a: int, b: int| 0 <= a < b < group_by_doc(ev).len() implies group_by_doc(ev)[a].0 != group_by_doc(ev)[b].0 by {
                    assert(group_by_doc(ev)[a].0 == acc[a].0);
                    assert(group_by_doc(ev)[b].0 == acc[b].0);
                }
                assert forall|k: int| 0 <= k < result@.len() implies index@.contains_key(#[trigger] result@[k].0) by {
                    assert(result@[k].0 == before[k].0);
                }
            }
        },
        None => {
            proof {
                if exists|k: int| 0 <= k < acc.len() && acc[k].0 == doc {
                    let k = choose|k: int| 0 <= k < acc.len() && acc[k].0 == doc;
                    assert(term_docs_view(result@)[k].0 == result@[k].0);
                    assert(index@.contains_key(result@[k].0));
                }
            }
            let len = result.len();
            let ghost before = result@;
            fx_insert(index, doc, len);
            let mut items: Vec<(SearchField, u16)> = Vec::new();
            items.push(item);
            result.push((doc, items));
            proof {
                assert(items@ =~= seq![item]);
                assert(term_docs_view(result@) =~= acc.push((doc, seq![item])));
                assert forall|a: int, b: int| 0 <= a < b < group_by_doc(ev).len() implies group_by_doc(ev)[a].0 != group_by_doc(ev)[b].0 by {
                    if b < acc.len() {
                        assert(group_by_doc(ev)[a].0 == acc[a].0);
                        assert(group_by_doc(ev)[b].0 == acc[b].0);
                    } else {
                        assert(group_by_doc(ev)[a].0 == acc[a].0);
                    }
                }
                assert forall|k: int| 0 <= k < result@.len() implies index@.contains_key(#[trigger] result@[k].0) by {
                    if k < before.len() {
                        assert(result@[k].0 == before[k].0);
                    }
                }
                assert forall|d: u32| #![trigger index@.contains_key(d)] index@.contains_key(d) implies index@[d] < result@.len() && result@[index@[d] as int].0 == d by {
                    if d != doc {
                        assert(old(index)@.contains_key(d));
                        assert(result@[index@[d] as int] == before[index@[d] as int]);
                    }
                }
            }
        },
    }
}

/// Add the live postings of `ps` (field known, document not tombstoned
/// when `tombstones` is given) to the grouping.
fn group_postings(
    result: &mut TermDocs,
    index: &mut FxHashMap<u32, usize>,
    ps: &[PostingEntry],
    tombstones: Option<&Tombstones>,
    Ghost(done): Ghost<Seq<(u32, (SearchField, u16))>>,
)
    requires
        term_docs_view(old(result)@) == group_by_doc(done),
        docs_distinct(group_by_doc(done)),
        forall|d: u32|
            #![trigger old(index)@.contains_key(d)]
            old(index)@.contains_key(d) ==> old(index)@[d] < old(result)@.len() && old(result)@[old(index)@[d] as int].0 == d,
        forall|j: int|
            0 <= j < old(result)@.len() ==> old(index)@.contains_key(#[trigger] old(result)@[j].0),
    ensures
        ({
            let dead = match tombstones {
                Some(t) => t@,
                None => Seq::<u32>::empty(),
            };
            &&& term_docs_view(final(result)@) == group_by_doc(done + live_events(ps@, dead))
            &&& docs_distinct(group_by_doc(done + live_events(ps@, dead)))
        }),
        forall|d: u32|
            #![trigger final(index)@.contains_key(d)]
            final(index)@.contains_key(d) ==> final(index)@[d] < final(result)@.len() && final(result)@[final(index)@[d] as int].0 == d,
        forall|j: int|
            0 <= j < final(result)@.len() ==> final(index)@.contains_key(
                #[trigger] final(result)@[j].0,
            ),
{
    let ghost dead = match tombstones {
        Some(t) => t@,
        None => Seq::<u32>::empty(),
    };
    let mut i: usize = 0;
    proof {
        assert(ps@.take(0) =~= Seq::<PostingEntry>::empty());
        assert(done + live_events(ps@.take(0), dead) =~= done);
    }
    while i < ps.len()
        invariant
            i <= ps@.len(),
            dead == match tombstones {
                Some(t) => t@,
                None => Seq::<u32>::empty(),
            },
            term_docs_view(result@) == group_by_doc(done + live_events(ps@.take(i as int), dead)),
            docs_distinct(group_by_doc(done + live_events(ps@.take(i as int), dead))),
            forall|d: u32|
                #![trigger index@.contains_key(d)]
                index@.contains_key(d) ==> index@[d] < result@.len() && result@[index@[d] as int].0
                    == d,
            forall|j: int| 0 <= j < result@.len() ==> index@.contains_key(#[trigger] result@[j].0),
        decreases ps@.len() - i,
    {
        let p = ps[i];
        let ghost cur = done + live_events(ps@.take(i as int), dead);
        assert(ps@.take(i + 1).drop_last() =~= ps@.take(i as int));
        assert(ps@.take(i + 1).last() == p);
        let alive = match tombstones {
            Some(t) => !t.contains(p.doc_id),
            None => true,
        };
        match SearchField::from_u8(p.field_id) {
            Some(f) => {
                if alive {
                    group_add(result, index, p.doc_id, (f, p.tf), Ghost(cur));
                    assert(done + live_events(ps@.take(i + 1), dead) =~= cur.push((p.doc_id, (f, p.tf))));
                } else {
                    assert(done + live_events(ps@.take(i + 1), dead) =~= cur);
                }
            },
            None => {
                assert(done + live_events(ps@.take(i + 1), dead) =~= cur);
            },
        }
        i = i + 1;
    }
    assert(ps@.take(ps@.len() as int) =~= ps@);
}

/// The documents of one n-gram with their per-field term frequencies: the
/// main-index postings of documents not tombstoned, then the delta
/// postings, each kept only when its field code is known.
pub fn collect_term_docs(main: &[PostingEntry], tombstones: &Tombstones, delta: &[PostingEntry]) -> (r: TermDocs)
    ensures
        term_docs_view(r@) == term_docs(main@, tombstones@, delta@),
        docs_distinct(term_docs_view(r@)),
{
    let mut result: TermDocs = Vec::new();
    let mut index: FxHashMap<u32, usize> = FxHashMap::default();
    proof {
        assert(term_docs_view(result@) =~= group_by_doc(Seq::empty()));
    }
    group_postings(&mut result, &mut index, main, Some(tombstones), Ghost(Seq::empty()));
    let ghost first = live_events(main@, tombstones@);
    assert(Seq::<(u32, (SearchField, u16))>::empty() + first =~= first);
    group_postings(&mut result, &mut index, delta, None, Ghost(first));
    result
}

/// The n-grams of a query's text: none when the query has no text or an
/// empty one, else the query n-grams of the text.
pub fn query_terms(query: &SearchQuery) -> (r: Vec<Ngram>)
    ensures
        match query.text_query {
            Some(t) => if t@.len() == 0 {
                r@.len() == 0
            } else {
                r@.map_values(|n: Ngram| n@) == query_ngrams(vstd::utf8::encode_utf8(t@))
            },
            None => r@.len() == 0,
        },
{
    match &query.text_query {
        None => Vec::new(),
        Some(t) => {
            if t.as_str().is_empty() {
                return Vec::new();
            }
            let weighted = extract_query_ngrams(t.as_str());
            let mut out: Vec<Ngram> = Vec::new();
            let mut i: usize = 0;
            while i < weighted.len()
                invariant
                    i <= weighted@.len(),
                    out@.map_values(|n: Ngram| n@) == weighted@.take(i as int).map_values(
                        |x: (Ngram, u64)| x.0@,
                    ),
                decreases weighted@.len() - i,
            {
                let ghost before = out@;
                let ng = weighted[i].0;
                out.push(ng);
                assert(out@.map_values(|n: Ngram| n@) =~= before.map_values(|n: Ngram| n@).push(ng@));
                assert(weighted@.take(i + 1) =~= weighted@.take(i as int).push(weighted@[i as int]));
                assert(weighted@.take(i + 1).map_values(|x: (Ngram, u64)| x.0@) =~= weighted@.take(
                    i as int,
                ).map_values(|x: (Ngram, u64)| x.0@).push(ng@));
                i = i + 1;
            }
            assert(weighted@.take(weighted@.len() as int) =~= weighted@);
            out
        },
    }
}

/// A posting list that a lookup of `h` can return: the valid postings of a
/// table record carrying `h`, or nothing, which on a sorted table means
/// that no record carries `h`.
pub open spec fn looked_up(reader: IndexReader, h: u64, ps: Seq<PostingEntry>) -> bool {
    ||| exists|i: int|
        0 <= i < reader.ngrams() && #[trigger] table_entry(reader.lookup_bytes(), i).ngram_hash
            == h && ps == read_postings(
            reader.postings_bytes(),
            table_entry(reader.lookup_bytes(), i),
            reader.spec_header().file_count,
        )
    ||| ps.len() == 0 && (table_sorted(reader.lookup_bytes(), reader.ngrams()) ==> !exists|i: int|
        0 <= i < reader.ngrams() && #[trigger] table_entry(reader.lookup_bytes(), i).ngram_hash
            == h)
}

/// The delta postings of `h`, none without a delta.
pub open spec fn delta_postings(delta: Option<&DeltaReader>, h: u64) -> Seq<PostingEntry> {
    match delta {
        Some(d) => postings_for(delta_records(d.contents()), h),
        None => Seq::<PostingEntry>::empty(),
    }
}

/// `docs` are the documents of n-gram `h`: grouped from a posting list a
/// lookup of `h` can return (tombstoned documents left out) followed by
/// the delta postings of `h`.
pub open spec fn term_docs_of(
    reader: IndexReader,
    tombstones: Seq<u32>,
    delta: Option<&DeltaReader>,
    h: u64,
    docs: Seq<(u32, Seq<(SearchField, u16)>)>,
) -> bool {
    exists|main: Seq<PostingEntry>|
        #![trigger looked_up(reader, h, main)]
        looked_up(reader, h, main) && docs == term_docs(main, tombstones, delta_postings(delta, h))
}

/// The documents of each query n-gram, in query order: for each, the
/// documents of its main-index postings (tombstoned ones left out) and of
/// its delta postings.
pub fn gather_term_docs(
    terms: &Vec<Ngram>,
    reader: &IndexReader,
    tombstones: &Tombstones,
    delta: Option<&DeltaReader>,
) -> (r: Vec<TermDocs>)
    ensures
        r@.len() == terms@.len(),
        forall|k: int|
            0 <= k < terms@.len() ==> #[trigger] term_docs_of(
                *reader,
                tombstones@,
                delta,
                terms@[k]@,
                term_docs_view(r@[k]@),
            ),
{
    let mut out: Vec<TermDocs> = Vec::new();
    let mut main_buf: Vec<PostingEntry> = Vec::new();
    let mut delta_buf: Vec<PostingEntry> = Vec::new();
    let mut k: usize = 0;
    while k < terms.len()
        invariant
            k <= terms@.len(),
            out@.len() == k,
            forall|j: int|
                0 <= j < k ==> #[trigger] term_docs_of(
                    *reader,
                    tombstones@,
                    delta,
                    terms@[j]@,
                    term_docs_view(out@[j]@),
                ),
        decreases terms@.len() - k,
    {
        let ngram = terms[k];
        let found = reader.lookup_into(ngram, &mut main_buf);
        match delta {
            Some(d) => d.scan_into(ngram, &mut delta_buf),
            None => delta_buf.clear(),
        }
        assert(delta_buf@ == delta_postings(delta, ngram@));
        let docs = collect_term_docs(main_buf.as_slice(), tombstones, delta_buf.as_slice());
        assert(looked_up(*reader, ngram@, main_buf@));
        let ghost prev = out@;
        out.push(docs);
        proof {
            assert forall|j: int| 0 <= j < k + 1 implies #[trigger] term_docs_of(
                *reader,
                tombstones@,
                delta,
                terms@[j]@,
                term_docs_view(out@[j]@),
            ) by {
                if j < k {
                    assert(out@[j] == prev[j]);
                } else {
                    assert(terms@[j] == ngram);
                    assert(looked_up(*reader, terms@[j]@, main_buf@));
                }
            }
        }
        k = k + 1;
    }
    out
}

/// The page of `items` starting at `offset`, at most `limit` long.
pub fn paginate<T>(items: Vec<T>, offset: usize, limit: usize) -> (r: Vec<T>)
    ensures
        offset >= items@.len() ==> r@.len() == 0,
        offset < items@.len() ==> r@ == items@.subrange(
            offset as int,
            if limit < items@.len() - offset {
                offset + limit
            } else {
                items@.len() as int
            },
        ),
{
    let mut items = items;
    if offset >= items.len() {
        return Vec::new();
    }
    let mut page = items.split_off(offset);
    if limit < page.len() {
        page.truncate(limit);
    }
    page
}

proof fn lemma_live_events_alive(ps: Seq<PostingEntry>, dead: Seq<u32>)
    ensures
        forall|k: int|
            0 <= k < live_events(ps, dead).len() ==> !dead.contains(
                (#[trigger] live_events(ps, dead)[k]).0,
            ),
    decreases ps.len(),
{
    if ps.len() > 0 {
        lemma_live_events_alive(ps.drop_last(), dead);
        let prev = live_events(ps.drop_last(), dead);
        let cur = live_events(ps, dead);
        assert forall|k: int| 0 <= k < cur.len() implies !dead.contains((#[trigger] cur[k]).0) by {
            if k < prev.len() {
                assert(cur[k] == prev[k]);
            }
        }
    }
}

proof fn lemma_group_docs_from_events(ev: Seq<(u32, (SearchField, u16))>)
    ensures
        forall|j: int|
            0 <= j < group_by_doc(ev).len() ==> exists|k: int|
                0 <= k < ev.len() && ev[k].0 == (#[trigger] group_by_doc(ev)[j]).0,
    decreases ev.len(),
{
    if ev.len() > 0 {
        let init = ev.drop_last();
        lemma_group_docs_from_events(init);
        let acc = group_by_doc(init);
        let g = group_by_doc(ev);
        let e = ev.last();
        assert forall|j: int| 0 <= j < g.len() implies exists|k: int|
            0 <= k < ev.len() && ev[k].0 == (#[trigger] g[j]).0 by {
            if j < acc.len() {
                assert(g[j].0 == acc[j].0);
                let k = choose|k: int| 0 <= k < init.len() && init[k].0 == acc[j].0;
                assert(ev[k] == init[k]);
            } else {
                assert(g[j].0 == e.0);
                assert(ev[ev.len() - 1] == e);
            }
        }
    }
}

/// A tombstoned document never appears among the documents a term finds in
/// the main index.
pub proof fn lemma_tombstoned_docs_left_out(main: Seq<PostingEntry>, dead: Seq<u32>)
    ensures
        forall|j: int|
            0 <= j < term_docs(main, dead, Seq::empty()).len() ==> !dead.contains(
                (#[trigger] term_docs(main, dead, Seq::empty())[j]).0,
            ),
{
    let ev = live_events(main, dead) + live_events(Seq::<PostingEntry>::empty(), Seq::empty());
    assert(live_events(Seq::<PostingEntry>::empty(), Seq::<u32>::empty()) =~= Seq::<(u32, (SearchField, u16))>::empty());
    assert(ev =~= live_events(main, dead));
    lemma_live_events_alive(main, dead);
    lemma_group_docs_from_events(ev);
    let g = term_docs(main, dead, Seq::empty());
    assert forall|j: int| 0 <= j < g.len() implies !dead.contains((#[trigger] g[j]).0) by {
        let k = choose|k: int| 0 <= k < ev.len() && ev[k].0 == g[j].0;
        assert(ev[k] == live_events(main, dead)[k]);
    }
}

} // verus!
