//! Encoding of the two index files: the lookup table (`.skidx`) and the
//! postings (`.skpost`).
use vstd::prelude::*;

use crate::lexical::{header_bytes, posting_bytes, IndexHeader, Ngram, PostingEntry, POSTING_ENTRY_SIZE};
use crate::types::error::BuildError;

use super::entry::{entry_bytes, IndexEntry, INDEX_ENTRY_SIZE};

verus! {

/// The bytes of consecutive postings.
pub open spec fn postings_bytes(ps: Seq<PostingEntry>) -> Seq<u8>
    decreases ps.len(),
{
    if ps.len() == 0 {
        Seq::empty()
    } else {
        postings_bytes(ps.drop_last()) + posting_bytes(ps.last())
    }
}

/// The abstract content of an index: for each n-gram hash, its posting list.
pub open spec fn index_model(entries: Seq<(Ngram, Vec<PostingEntry>)>) -> Seq<(u64, Seq<PostingEntry>)> {
    entries.map_values(|e: (Ngram, Vec<PostingEntry>)| (e.0@, e.1@))
}

/// The postings file: every posting list, one after the other.
pub open spec fn all_postings_bytes(es: Seq<(u64, Seq<PostingEntry>)>) -> Seq<u8>
    decreases es.len(),
{
    if es.len() == 0 {
        Seq::empty()
    } else {
        all_postings_bytes(es.drop_last()) + postings_bytes(es.last().1)
    }
}

/// Total number of postings in the first `n` lists.
pub open spec fn postings_before(es: Seq<(u64, Seq<PostingEntry>)>, n: int) -> int
    decreases n,
{
    if n <= 0 {
        0
    } else {
        postings_before(es, n - 1) + es[n - 1].1.len()
    }
}

/// The lookup-table record of the `i`-th posting list.
pub open spec fn lookup_entry_of(es: Seq<(u64, Seq<PostingEntry>)>, i: int) -> IndexEntry {
    IndexEntry {
        ngram_hash: es[i].0,
        posting_offset: (POSTING_ENTRY_SIZE * postings_before(es, i)) as u64,
        posting_length: es[i].1.len() as u32,
    }
}

/// The lookup-table records of a sequence of entries.
pub open spec fn table_bytes(ies: Seq<IndexEntry>) -> Seq<u8>
    decreases ies.len(),
{
    if ies.len() == 0 {
        Seq::empty()
    } else {
        table_bytes(ies.drop_last()) + entry_bytes(ies.last())
    }
}

/// The lookup file of an index: the header, then one record per posting list.
pub open spec fn lookup_file_bytes(h: IndexHeader, es: Seq<(u64, Seq<PostingEntry>)>) -> Seq<u8> {
    header_bytes(h) + table_bytes(Seq::new(es.len(), |i: int| lookup_entry_of(es, i)))
}

/// The first failure met when encoding the lists from `i` on, in order:
/// a list longer than `u32::MAX`, or the postings file outgrowing `u64`.
pub open spec fn build_failure_from(es: Seq<(u64, Seq<PostingEntry>)>, i: int) -> Option<BuildError>
    decreases es.len() - i,
{
    if i < 0 || i >= es.len() {
        None
    } else if es[i].1.len() > u32::MAX {
        Some(BuildError::PostingListTooLong { ngram: es[i].0 })
    } else if POSTING_ENTRY_SIZE * postings_before(es, i + 1) > u64::MAX {
        Some(BuildError::PostingsSizeOverflow)
    } else {
        build_failure_from(es, i + 1)
    }
}

/// The two encoded index files.
pub struct EncodedIndex {
    /// Contents of the lookup file (`.skidx`).
    pub lookup: Vec<u8>,
    /// Contents of the postings file (`.skpost`).
    pub postings: Vec<u8>,
}

proof fn lemma_postings_before_step(es: Seq<(u64, Seq<PostingEntry>)>, i: int)
    requires
        0 <= i,
    ensures
        postings_before(es, i + 1) == postings_before(es, i) + es[i].1.len(),
        postings_before(es, i) >= 0,
    decreases i,
{
    if i > 0 {
        lemma_postings_before_step(es, i - 1);
    }
}

/// `postings_before` depends only on the lists before `n`.
proof fn lemma_postings_before_take(es: Seq<(u64, Seq<PostingEntry>)>, m: int, n: int)
    requires
        0 <= n <= m <= es.len(),
    ensures
        postings_before(es.take(m), n) == postings_before(es, n),
    decreases n,
{
    if n > 0 {
        lemma_postings_before_take(es, m, n - 1);
    }
}

proof fn lemma_postings_bytes_len(ps: Seq<PostingEntry>)
    ensures
        postings_bytes(ps).len() == POSTING_ENTRY_SIZE * ps.len(),
    decreases ps.len(),
{
    if ps.len() > 0 {
        lemma_postings_bytes_len(ps.drop_last());
    }
}

/// The postings file spends twelve bytes per posting.
pub proof fn lemma_all_postings_bytes_len(es: Seq<(u64, Seq<PostingEntry>)>)
    ensures
        all_postings_bytes(es).len() == POSTING_ENTRY_SIZE * postings_before(es, es.len() as int),
    decreases es.len(),
{
    if es.len() > 0 {
        let init = es.drop_last();
        lemma_all_postings_bytes_len(init);
        lemma_postings_bytes_len(es.last().1);
        lemma_postings_before_step(es, es.len() - 1);
        lemma_postings_before_take(es, es.len() - 1, es.len() - 1);
        assert(init == es.take(es.len() - 1));
    }
}

/// Encode an index whose posting lists are given in order: the lookup
/// file (header, then one record per list with the byte offset of its
/// postings) and the postings file. Fails on the first list longer than
/// `u32::MAX` or when the postings file would outgrow `u64`.
pub fn encode_index(entries: &[(Ngram, Vec<PostingEntry>)], header: &IndexHeader) -> (r: Result<
    EncodedIndex,
    BuildError,
>)
    ensures
        build_failure_from(index_model(entries@), 0) matches Some(e) ==> r == Err::<
            EncodedIndex,
            BuildError,
        >(e),
        build_failure_from(index_model(entries@), 0) is None ==> (r matches Ok(enc) && enc.lookup@
            == lookup_file_bytes(*header, index_model(entries@)) && enc.postings@
            == all_postings_bytes(index_model(entries@))),
{
    let ghost es = index_model(entries@);
    let mut lookup: Vec<u8> = Vec::new();
    header.write_to(&mut lookup);
    let mut postings: Vec<u8> = Vec::new();
    let mut offset: u64 = 0;
    let mut i: usize = 0;
    let ghost ies = Seq::new(es.len(), |k: int| lookup_entry_of(es, k));
    proof {
        assert(lookup@ =~= header_bytes(*header) + table_bytes(ies.take(0)));
        assert(postings@ =~= all_postings_bytes(es.take(0)));
    }
    while i < entries.len()
        invariant
            es == index_model(entries@),
            ies == Seq::new(es.len(), |k: int| lookup_entry_of(es, k)),
            i <= entries@.len(),
            es.len() == entries@.len(),
            build_failure_from(es, 0) == build_failure_from(es, i as int),
            offset == POSTING_ENTRY_SIZE * postings_before(es, i as int),
            lookup@ == header_bytes(*header) + table_bytes(ies.take(i as int)),
            postings@ == all_postings_bytes(es.take(i as int)),
        decreases entries@.len() - i,
    {
        let postings_list = &entries[i].1;
        let ngram = entries[i].0;
        proof {
            lemma_postings_before_step(es, i as int);
            assert(es[i as int].1 == postings_list@);
        }
        if postings_list.len() > 0xffff_ffffusize {
            return Err(BuildError::PostingListTooLong { ngram: ngram.as_u64() });
        }
        let posting_length = postings_list.len() as u32;
        let byte_len = (postings_list.len() as u64) * 12u64;
        let next = offset.checked_add(byte_len);
        let next = match next {
            Some(n) => n,
            None => {
                return Err(BuildError::PostingsSizeOverflow);
            },
        };
        let ie = IndexEntry { ngram_hash: ngram.as_u64(), posting_offset: offset, posting_length };
        assert(ie == ies[i as int]);
        let bytes = ie.to_bytes();
        let mut k: usize = 0;
        while k < INDEX_ENTRY_SIZE
            invariant
                k <= INDEX_ENTRY_SIZE,
                bytes@ == entry_bytes(ie),
                lookup@ == header_bytes(*header) + table_bytes(ies.take(i as int)) + bytes@.take(
                    k as int,
                ),
            decreases INDEX_ENTRY_SIZE - k,
        {
            lookup.push(bytes[k]);
            assert(bytes@.take(k as int + 1) =~= bytes@.take(k as int).push(bytes[k as int]));
            k = k + 1;
        }
        proof {
            assert(bytes@.take(INDEX_ENTRY_SIZE as int) =~= bytes@);
            assert(ies.take(i as int + 1).drop_last() =~= ies.take(i as int));
            assert(table_bytes(ies.take(i as int + 1)) == table_bytes(ies.take(i as int))
                + entry_bytes(ie));
        }
        let ghost before = postings@;
        let mut j: usize = 0;
        while j < postings_list.len()
            invariant
                j <= postings_list@.len(),
                postings@ == before + postings_bytes(postings_list@.take(j as int)),
            decreases postings_list@.len() - j,
        {
            postings_list[j].write_to(&mut postings);
            assert(postings_list@.take(j as int + 1).drop_last() =~= postings_list@.take(j as int));
            j = j + 1;
        }
        proof {
            assert(postings_list@.take(postings_list@.len() as int) =~= postings_list@);
            assert(es.take(i as int + 1).drop_last() =~= es.take(i as int));
            assert(es.take(i as int + 1).last() == es[i as int]);
        }
        offset = next;
        i = i + 1;
    }
    proof {
        assert(ies.take(es.len() as int) =~= ies);
        assert(es.take(es.len() as int) =~= es);
    }
    Ok(EncodedIndex { lookup, postings })
}

} // verus!
