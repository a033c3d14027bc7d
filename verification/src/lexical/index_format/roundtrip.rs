//! What a reader gives back of an index the writer encoded.
use vstd::prelude::*;

use crate::lexical::{
    header_bytes, header_fields_match, lemma_header_roundtrip, lemma_posting_roundtrip,
    magic_bytes, parse_posting_at, posting_bytes, IndexHeader, PostingEntry,
    INDEX_FORMAT_VERSION, INDEX_HEADER_SIZE, POSTING_ENTRY_SIZE,
};

use super::entry::{entry_bytes, lemma_entry_roundtrip, IndexEntry, INDEX_ENTRY_SIZE};
use super::reader::{
    announced_files, announced_ngrams, entry_in_bounds, index_accepts, posting_valid,
    read_postings, stored_postings, table_entry, table_sorted, MAX_SKPOST_BYTES,
};
use super::writer::{
    all_postings_bytes, build_failure_from, lemma_all_postings_bytes_len, lookup_entry_of,
    lookup_file_bytes, postings_before, postings_bytes, table_bytes,
};

verus! {

proof fn lemma_table_bytes_append(a: Seq<IndexEntry>, b: Seq<IndexEntry>)
    ensures
        table_bytes(a + b) == table_bytes(a) + table_bytes(b),
    decreases b.len(),
{
    if b.len() == 0 {
        assert(a + b =~= a);
        assert(table_bytes(a) + table_bytes(b) =~= table_bytes(a));
    } else {
        lemma_table_bytes_append(a, b.drop_last());
        assert((a + b).drop_last() =~= a + b.drop_last());
        assert((a + b).last() == b.last());
    }
}

proof fn lemma_table_bytes_len(a: Seq<IndexEntry>)
    ensures
        table_bytes(a).len() == INDEX_ENTRY_SIZE * a.len(),
    decreases a.len(),
{
    if a.len() > 0 {
        lemma_table_bytes_len(a.drop_last());
        lemma_entry_roundtrip(a.last(), Seq::empty(), Seq::empty());
    }
}

proof fn lemma_postings_bytes_append(a: Seq<PostingEntry>, b: Seq<PostingEntry>)
    ensures
        postings_bytes(a + b) == postings_bytes(a) + postings_bytes(b),
    decreases b.len(),
{
    if b.len() == 0 {
        assert(a + b =~= a);
        assert(postings_bytes(a) + postings_bytes(b) =~= postings_bytes(a));
    } else {
        lemma_postings_bytes_append(a, b.drop_last());
        assert((a + b).drop_last() =~= a + b.drop_last());
        assert((a + b).last() == b.last());
    }
}

proof fn lemma_postings_bytes_len(a: Seq<PostingEntry>)
    ensures
        postings_bytes(a).len() == POSTING_ENTRY_SIZE * a.len(),
    decreases a.len(),
{
    if a.len() > 0 {
        lemma_postings_bytes_len(a.drop_last());
        lemma_posting_roundtrip(a.last(), Seq::empty(), Seq::empty());
    }
}

proof fn lemma_all_postings_append(
    a: Seq<(u64, Seq<PostingEntry>)>,
    b: Seq<(u64, Seq<PostingEntry>)>,
)
    ensures
        all_postings_bytes(a + b) == all_postings_bytes(a) + all_postings_bytes(b),
    decreases b.len(),
{
    if b.len() == 0 {
        assert(a + b =~= a);
        assert(all_postings_bytes(a) + all_postings_bytes(b) =~= all_postings_bytes(a));
    } else {
        lemma_all_postings_append(a, b.drop_last());
        assert((a + b).drop_last() =~= a + b.drop_last());
        assert((a + b).last() == b.last());
    }
}

proof fn lemma_postings_before_mono(es: Seq<(u64, Seq<PostingEntry>)>, i: int, j: int)
    requires
        0 <= i <= j,
    ensures
        0 <= postings_before(es, i) <= postings_before(es, j),
    decreases j,
{
    if i < j {
        lemma_postings_before_mono(es, i, j - 1);
    } else if i > 0 {
        lemma_postings_before_mono(es, 0, i - 1);
    }
}

proof fn lemma_postings_before_take(es: Seq<(u64, Seq<PostingEntry>)>, m: int, n: int)
    requires
        0 <= n <= m <= es.len(),
    ensures
        postings_before(es.take(m), n) == postings_before(es, n),
    decreases n,
{
    if n > 0 {
        lemma_postings_before_take(es, m, n - 1);
    }
}

/// No encoding failure means every list fits `u32` and every prefix of the
/// postings file fits `u64`.
proof fn lemma_no_build_failure(es: Seq<(u64, Seq<PostingEntry>)>, k: int, i: int)
    requires
        0 <= k <= i < es.len(),
        build_failure_from(es, k) is None,
    ensures
        es[i].1.len() <= u32::MAX,
        POSTING_ENTRY_SIZE * postings_before(es, i + 1) <= u64::MAX,
    decreases i - k,
{
    if k < i {
        lemma_no_build_failure(es, k + 1, i);
    }
}

/// The `i`-th record of an encoded lookup file is the record the writer
/// made for the `i`-th posting list.
proof fn lemma_table_entry_of_written(h: IndexHeader, es: Seq<(u64, Seq<PostingEntry>)>, i: int)
    requires
        0 <= i < es.len(),
    ensures
        table_entry(lookup_file_bytes(h, es), i) == lookup_entry_of(es, i),
{
    let ies = Seq::new(es.len(), |k: int| lookup_entry_of(es, k));
    let pre = ies.take(i);
    let post = ies.skip(i + 1);
    assert(ies =~= pre + seq![ies[i]] + post);
    lemma_table_bytes_append(pre + seq![ies[i]], post);
    lemma_table_bytes_append(pre, seq![ies[i]]);
    assert(seq![ies[i]].drop_last() =~= Seq::<IndexEntry>::empty());
    assert(table_bytes(seq![ies[i]].drop_last()) =~= Seq::<u8>::empty());
    assert(table_bytes(seq![ies[i]]) =~= entry_bytes(ies[i]));
    lemma_table_bytes_len(pre);
    lemma_header_roundtrip(h, Seq::empty());
    let prefix = header_bytes(h) + table_bytes(pre);
    assert(lookup_file_bytes(h, es) == prefix + entry_bytes(ies[i]) + table_bytes(post));
    lemma_entry_roundtrip(ies[i], prefix, table_bytes(post));
}

/// The postings stored at the `i`-th list's offset are that list.
proof fn lemma_stored_postings_of_written(es: Seq<(u64, Seq<PostingEntry>)>, i: int, k: int)
    requires
        0 <= i < es.len(),
        0 <= k < es[i].1.len(),
    ensures
        parse_posting_at(
            all_postings_bytes(es),
            POSTING_ENTRY_SIZE * postings_before(es, i) + POSTING_ENTRY_SIZE * k,
        ) == es[i].1[k],
{
    let pre = es.take(i);
    let post = es.skip(i + 1);
    assert(es =~= pre + seq![es[i]] + post);
    lemma_all_postings_append(pre + seq![es[i]], post);
    lemma_all_postings_append(pre, seq![es[i]]);
    assert(seq![es[i]].drop_last() =~= Seq::<(u64, Seq<PostingEntry>)>::empty());
    assert(all_postings_bytes(seq![es[i]].drop_last()) =~= Seq::<u8>::empty());
    assert(all_postings_bytes(seq![es[i]]) =~= postings_bytes(es[i].1));
    lemma_all_postings_bytes_len(pre);
    lemma_postings_before_take(es, i, i);
    let ps = es[i].1;
    let ppre = ps.take(k);
    let ppost = ps.skip(k + 1);
    assert(ps =~= ppre + seq![ps[k]] + ppost);
    lemma_postings_bytes_append(ppre + seq![ps[k]], ppost);
    lemma_postings_bytes_append(ppre, seq![ps[k]]);
    assert(seq![ps[k]].drop_last() =~= Seq::<PostingEntry>::empty());
    assert(postings_bytes(seq![ps[k]].drop_last()) =~= Seq::<u8>::empty());
    assert(postings_bytes(seq![ps[k]]) =~= posting_bytes(ps[k]));
    lemma_postings_bytes_len(ppre);
    let prefix = all_postings_bytes(pre) + postings_bytes(ppre);
    let suffix = postings_bytes(ppost) + all_postings_bytes(post);
    assert(all_postings_bytes(es) =~= prefix + posting_bytes(ps[k]) + suffix);
    lemma_posting_roundtrip(ps[k], prefix, suffix);
}

/// Reading back an index the writer encoded: when its posting lists are
/// given in strictly increasing hash order, encoding succeeds, and the
/// header announces as many n-grams as there are lists and fits the size
/// limits, the two files pass the open-time checks, every record's posting
/// range is in bounds, the table is sorted, and the `i`-th record carries
/// the `i`-th hash and reads back exactly the valid postings of the `i`-th
/// list.
pub proof fn lemma_written_index_reads_back(h: IndexHeader, es: Seq<(u64, Seq<PostingEntry>)>)
    requires
        h.magic@ == magic_bytes(),
        h.version == INDEX_FORMAT_VERSION,
        h.ngram_count == es.len(),
        build_failure_from(es, 0) is None,
        forall|i: int, j: int| 0 <= i < j < es.len() ==> es[i].0 < es[j].0,
        POSTING_ENTRY_SIZE * postings_before(es, es.len() as int) <= MAX_SKPOST_BYTES,
        INDEX_HEADER_SIZE + INDEX_ENTRY_SIZE * es.len() <= usize::MAX,
    ensures
        index_accepts(lookup_file_bytes(h, es), all_postings_bytes(es)),
        announced_ngrams(lookup_file_bytes(h, es)) == es.len(),
        announced_files(lookup_file_bytes(h, es)) == h.file_count,
        table_sorted(lookup_file_bytes(h, es), es.len() as int),
        forall|i: int|
            0 <= i < es.len() ==> {
                &&& #[trigger] table_entry(lookup_file_bytes(h, es), i).ngram_hash == es[i].0
                &&& entry_in_bounds(
                    table_entry(lookup_file_bytes(h, es), i),
                    all_postings_bytes(es).len() as int,
                )
                &&& read_postings(
                    all_postings_bytes(es),
                    table_entry(lookup_file_bytes(h, es), i),
                    h.file_count,
                ) == es[i].1.filter(|p: PostingEntry| posting_valid(p, h.file_count))
            },
{
    let lookup = lookup_file_bytes(h, es);
    let post = all_postings_bytes(es);
    let n = es.len() as int;
    let ies = Seq::new(es.len(), |k: int| lookup_entry_of(es, k));
    lemma_table_bytes_len(ies);
    lemma_header_roundtrip(h, table_bytes(ies));
    lemma_all_postings_bytes_len(es);
    assert(header_fields_match(h, lookup));
    assert(lookup.subrange(0, 4) == magic_bytes());
    assert(index_accepts(lookup, post));
    assert forall|i: int| 0 <= i < n implies {
        &&& #[trigger] table_entry(lookup, i).ngram_hash == es[i].0
        &&& entry_in_bounds(table_entry(lookup, i), post.len() as int)
        &&& read_postings(post, table_entry(lookup, i), h.file_count) == es[i].1.filter(
            |p: PostingEntry| posting_valid(p, h.file_count),
        )
    } by {
        lemma_table_entry_of_written(h, es, i);
        lemma_no_build_failure(es, 0, i);
        lemma_postings_before_mono(es, i, i + 1);
        lemma_postings_before_mono(es, i + 1, n);
        let e = table_entry(lookup, i);
        assert(e.posting_offset == POSTING_ENTRY_SIZE * postings_before(es, i));
        assert(e.posting_length == es[i].1.len());
        assert(postings_before(es, i + 1) == postings_before(es, i) + es[i].1.len());
        assert(stored_postings(post, e) =~= es[i].1) by {
            assert forall|k: int| 0 <= k < es[i].1.len() implies parse_posting_at(
                post,
                e.posting_offset + POSTING_ENTRY_SIZE * k,
            ) == es[i].1[k] by {
                lemma_stored_postings_of_written(es, i, k);
            }
        }
    }
    assert forall|i: int, j: int| 0 <= i < j < n implies table_entry(lookup, i).ngram_hash
        < table_entry(lookup, j).ngram_hash by {
        lemma_table_entry_of_written(h, es, i);
        lemma_table_entry_of_written(h, es, j);
    }
}

} // verus!
