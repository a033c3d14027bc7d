//! Append-only delta segment for incremental index updates.
//!
//! The segment is a flat array of 20-byte records: the n-gram hash (8 bytes
//! little-endian) followed by a posting (12 bytes). A torn record at the end
//! of the file is ignored.
use rustc_hash::FxHashMap;
use crate::fx_map::{fx_get, fx_insert, fx_remove};
use vstd::prelude::*;

use crate::lexical::le::{le_u64_at, lemma_u64_roundtrip, push_u64_le, read_u64_le, u64_le};
use crate::lexical::{
    lemma_posting_roundtrip, parse_posting_at, posting_bytes, Ngram, PostingEntry,
    POSTING_ENTRY_SIZE,
};
use crate::types::error::CorruptionKind;

verus! {

broadcast use vstd::std_specs::hash::group_hash_axioms;

/// Size of one delta record: hash plus posting.
pub const DELTA_RECORD_SIZE: usize = 20;

/// Maximum delta file size in bytes (100 MB).
pub const MAX_DELTA_BYTES: usize = 100_000_000;

/// The complete records of a delta file, as (hash, posting) pairs.
pub open spec fn delta_records(bytes: Seq<u8>) -> Seq<(u64, PostingEntry)> {
    Seq::new(
        bytes.len() / (DELTA_RECORD_SIZE as nat),
        |i: int|
            (
                le_u64_at(bytes, DELTA_RECORD_SIZE * i),
                parse_posting_at(bytes, DELTA_RECORD_SIZE * i + 8),
            ),
    )
}

/// The postings of the records whose hash is `h`, in file order.
pub open spec fn postings_for(records: Seq<(u64, PostingEntry)>, h: u64) -> Seq<PostingEntry>
    decreases records.len(),
{
    if records.len() == 0 {
        Seq::empty()
    } else if records.last().0 == h {
        postings_for(records.drop_last(), h).push(records.last().1)
    } else {
        postings_for(records.drop_last(), h)
    }
}

/// The bytes of a sequence of delta records.
pub open spec fn delta_bytes(records: Seq<(u64, PostingEntry)>) -> Seq<u8>
    decreases records.len(),
{
    if records.len() == 0 {
        Seq::empty()
    } else {
        delta_bytes(records.drop_last()) + u64_le(records.last().0) + posting_bytes(
            records.last().1,
        )
    }
}

/// The records of the entries handed to an append.
pub open spec fn entries_records(entries: Seq<(Ngram, PostingEntry)>) -> Seq<(u64, PostingEntry)> {
    entries.map_values(|e: (Ngram, PostingEntry)| (e.0@, e.1))
}

/// Encode entries as delta records, in order, for appending to the file.
pub fn encode_delta(entries: &[(Ngram, PostingEntry)]) -> (r: Vec<u8>)
    ensures
        r@ == delta_bytes(entries_records(entries@)),
{
    let ghost recs = entries_records(entries@);
    let mut out: Vec<u8> = Vec::new();
    let mut i: usize = 0;
    while i < entries.len()
        invariant
            i <= entries@.len(),
            recs == entries_records(entries@),
            out@ == delta_bytes(recs.take(i as int)),
        decreases entries@.len() - i,
    {
        let (ngram, posting) = entries[i];
        push_u64_le(&mut out, ngram.as_u64());
        posting.write_to(&mut out);
        assert(recs.take(i as int + 1).drop_last() =~= recs.take(i as int));
        i = i + 1;
    }
    assert(recs.take(entries@.len() as int) =~= recs);
    out
}

/// Reader over a delta file's contents with an index from hash to the
/// offsets of its records.
pub struct DeltaReader {
    bytes: Vec<u8>,
    index: FxHashMap<u64, Vec<usize>>,
}

/// The byte offsets of the records among the first `n` whose hash is `h`.
pub open spec fn offsets_for(bytes: Seq<u8>, n: int, h: u64) -> Seq<usize>
    decreases n,
{
    if n <= 0 {
        Seq::empty()
    } else if le_u64_at(bytes, DELTA_RECORD_SIZE * (n - 1)) == h {
        offsets_for(bytes, n - 1, h).push((DELTA_RECORD_SIZE * (n - 1)) as usize)
    } else {
        offsets_for(bytes, n - 1, h)
    }
}

/// The postings stored at the given record offsets.
pub open spec fn postings_at(bytes: Seq<u8>, offsets: Seq<usize>) -> Seq<PostingEntry> {
    offsets.map_values(|b: usize| parse_posting_at(bytes, b + 8))
}

/// The record offsets for `h` among the first `m` records point at whole
/// records, and the postings there are the postings of those records.
proof fn lemma_offsets_for(bytes: Seq<u8>, m: int, h: u64)
    requires
        0 <= m <= bytes.len() / (DELTA_RECORD_SIZE as nat),
        bytes.len() <= MAX_DELTA_BYTES,
    ensures
        postings_at(bytes, offsets_for(bytes, m, h)) == postings_for(
            delta_records(bytes).take(m),
            h,
        ),
        forall|k: int|
            0 <= k < offsets_for(bytes, m, h).len() ==> #[trigger] offsets_for(bytes, m, h)[k]
                + DELTA_RECORD_SIZE <= DELTA_RECORD_SIZE * m,
    decreases m,
{
    let recs = delta_records(bytes);
    if m == 0 {
        assert(recs.take(0) =~= Seq::<(u64, PostingEntry)>::empty());
        assert(postings_at(bytes, offsets_for(bytes, 0, h)) =~= Seq::<PostingEntry>::empty());
    } else {
        lemma_offsets_for(bytes, m - 1, h);
        assert(recs.take(m).drop_last() =~= recs.take(m - 1));
        let prev = offsets_for(bytes, m - 1, h);
        let rec = recs[m - 1];
        assert(rec.0 == le_u64_at(bytes, DELTA_RECORD_SIZE * (m - 1)));
        assert(rec.1 == parse_posting_at(bytes, DELTA_RECORD_SIZE * (m - 1) + 8));
        if le_u64_at(bytes, DELTA_RECORD_SIZE * (m - 1)) == h {
            let b = (DELTA_RECORD_SIZE * (m - 1)) as usize;
            assert(b == DELTA_RECORD_SIZE * (m - 1));
            assert(postings_at(bytes, prev.push(b)) =~= postings_at(bytes, prev).push(
                parse_posting_at(bytes, b + 8),
            ));
        }
    }
}

impl DeltaReader {
    /// The index maps each hash present among the first `n` records to the
    /// offsets of its records in order, and no other hash.
    spec fn index_covers(bytes: Seq<u8>, index: Map<u64, Vec<usize>>, n: int) -> bool {
        forall|h: u64|
            #![trigger index.contains_key(h)]
            (index.contains_key(h) ==> index[h]@ == offsets_for(bytes, n, h)) && (
            !index.contains_key(h) ==> offsets_for(bytes, n, h).len() == 0)
    }

    #[verifier::type_invariant]
    spec fn inv(self) -> bool {
        &&& self.bytes@.len() <= MAX_DELTA_BYTES
        &&& Self::index_covers(
            self.bytes@,
            self.index@,
            (self.bytes@.len() / (DELTA_RECORD_SIZE as nat)) as int,
        )
    }

    /// The delta file's contents.
    pub closed spec fn contents(self) -> Seq<u8> {
        self.bytes@
    }

    /// Wrap a delta file's contents: `None` for an empty file, an error for
    /// a file over the size limit, otherwise a reader over its records.
    pub fn from_bytes(bytes: Vec<u8>) -> (r: Result<Option<Self>, CorruptionKind>)
        ensures
            bytes@.len() == 0 ==> r matches Ok(None),
            bytes@.len() > MAX_DELTA_BYTES ==> r == Err::<Option<Self>, CorruptionKind>(
                CorruptionKind::DeltaTooLarge { size: bytes@.len() as usize },
            ),
            0 < bytes@.len() <= MAX_DELTA_BYTES ==> (r matches Ok(Some(d)) && d.contents()
                == bytes@),
    {
        let len = bytes.len();
        if len == 0 {
            return Ok(None);
        }
        if len > MAX_DELTA_BYTES {
            return Err(CorruptionKind::DeltaTooLarge { size: len });
        }
        let record_count = len / DELTA_RECORD_SIZE;
        let mut index: FxHashMap<u64, Vec<usize>> = FxHashMap::default();
        let mut i: usize = 0;
        while i < record_count
            invariant
                i <= record_count,
                record_count == bytes@.len() / (DELTA_RECORD_SIZE as nat),
                len == bytes@.len(),
                len <= MAX_DELTA_BYTES,
                Self::index_covers(bytes@, index@, i as int),
            decreases record_count - i,
        {
            let base = i * DELTA_RECORD_SIZE;
            let hash = read_u64_le(bytes.as_slice(), base);
            let mut offs = match fx_remove(&mut index, &hash) {
                Some(v) => v,
                None => Vec::new(),
            };
            let ghost before = offs@;
            offs.push(base);
            let ghost idx_before = index@;
            fx_insert(&mut index, hash, offs);
            proof {
                assert forall|h: u64| #![trigger index@.contains_key(h)]
                    (index@.contains_key(h) ==> index@[h]@ == offsets_for(bytes@, i + 1, h))
                    && (!index@.contains_key(h) ==> offsets_for(bytes@, i + 1, h).len() == 0) by {
                    if h == hash {
                        assert(before == offsets_for(bytes@, i as int, h));
                    } else {
                        assert(index@.contains_key(h) == idx_before.contains_key(h));
                    }
                }
            }
            i = i + 1;
        }
        Ok(Some(DeltaReader { bytes, index }))
    }

    /// All postings whose record hash equals the n-gram's, in file order.
    pub fn scan(&self, ngram: Ngram) -> (r: Vec<PostingEntry>)
        ensures
            r@ == postings_for(delta_records(self.contents()), ngram@),
    {
        let mut buf: Vec<PostingEntry> = Vec::new();
        self.scan_into(ngram, &mut buf);
        buf
    }

    /// All postings whose record hash equals the n-gram's, in file order,
    /// written into a caller-owned buffer (cleared first).
    pub fn scan_into(&self, ngram: Ngram, buf: &mut Vec<PostingEntry>)
        ensures
            final(buf)@ == postings_for(delta_records(self.contents()), ngram@),
    {
        proof {
            use_type_invariant(self);
        }
        buf.clear();
        let h = ngram.as_u64();
        let n = self.bytes.len() / DELTA_RECORD_SIZE;
        let ghost recs = delta_records(self.bytes@);
        proof {
            lemma_offsets_for(self.bytes@, n as int, h);
            assert(recs.take(n as int) =~= recs);
        }
        match fx_get(&self.index, &h) {
            None => {
                assert(offsets_for(self.bytes@, n as int, h).len() == 0);
                assert(postings_for(recs, h) =~= Seq::<PostingEntry>::empty());
            },
            Some(offsets) => {
                let mut j: usize = 0;
                while j < offsets.len()
                    invariant
                        j <= offsets@.len(),
                        offsets@ == offsets_for(self.bytes@, n as int, h),
                        n == self.bytes@.len() / (DELTA_RECORD_SIZE as nat),
                        self.bytes@.len() <= MAX_DELTA_BYTES,
                        forall|k: int|
                            0 <= k < offsets@.len() ==> #[trigger] offsets@[k] + DELTA_RECORD_SIZE
                                <= DELTA_RECORD_SIZE * n,
                        buf@ == postings_at(self.bytes@, offsets@.take(j as int)),
                    decreases offsets@.len() - j,
                {
                    let base = offsets[j];
                    let p = PostingEntry::read_at(self.bytes.as_slice(), base + 8);
                    buf.push(p);
                    assert(offsets@.take(j as int + 1) =~= offsets@.take(j as int).push(base));
                    assert(buf@ =~= postings_at(self.bytes@, offsets@.take(j as int + 1)));
                    j = j + 1;
                }
                assert(offsets@.take(offsets@.len() as int) =~= offsets@);
            },
        }
    }
}

proof fn lemma_delta_bytes_len(records: Seq<(u64, PostingEntry)>)
    ensures
        delta_bytes(records).len() == DELTA_RECORD_SIZE * records.len(),
    decreases records.len(),
{
    if records.len() > 0 {
        lemma_delta_bytes_len(records.drop_last());
        lemma_u64_roundtrip(records.last().0, Seq::empty(), Seq::empty());
        lemma_posting_roundtrip(records.last().1, Seq::empty(), Seq::empty());
    }
}

/// Appending one record to a file of whole records appends it to the
/// records read back.
proof fn lemma_delta_records_push(prefix: Seq<u8>, h: u64, p: PostingEntry)
    requires
        prefix.len() % (DELTA_RECORD_SIZE as nat) == 0,
    ensures
        delta_records(prefix + u64_le(h) + posting_bytes(p)) == delta_records(prefix).push((h, p)),
{
    let tail = u64_le(h) + posting_bytes(p);
    let all = prefix + u64_le(h) + posting_bytes(p);
    lemma_u64_roundtrip(h, prefix, posting_bytes(p));
    lemma_posting_roundtrip(p, prefix + u64_le(h), Seq::empty());
    assert(all == prefix + u64_le(h) + posting_bytes(p) + Seq::<u8>::empty());
    let n = prefix.len() / (DELTA_RECORD_SIZE as nat);
    assert(all.len() / (DELTA_RECORD_SIZE as nat) == n + 1);
    assert forall|i: int| 0 <= i < n implies #[trigger] delta_records(all)[i] == delta_records(
        prefix,
    )[i] by {
        let at = DELTA_RECORD_SIZE * i;
        assert(at + DELTA_RECORD_SIZE <= prefix.len());
        assert forall|j: int| 0 <= j < prefix.len() implies #[trigger] all[j] == prefix[j] by {}
        assert(le_u64_at(all, at) == le_u64_at(prefix, at));
        assert(parse_posting_at(all, at + 8) == parse_posting_at(prefix, at + 8));
    }
    assert(delta_records(all) =~= delta_records(prefix).push((h, p)));
}

/// The records read from a file of whole records followed by encoded
/// records are the file's records followed by the encoded ones.
proof fn lemma_delta_records_append(prefix: Seq<u8>, records: Seq<(u64, PostingEntry)>)
    requires
        prefix.len() % (DELTA_RECORD_SIZE as nat) == 0,
    ensures
        delta_records(prefix + delta_bytes(records)) == delta_records(prefix) + records,
    decreases records.len(),
{
    if records.len() == 0 {
        assert(prefix + delta_bytes(records) =~= prefix);
        assert(delta_records(prefix) + records =~= delta_records(prefix));
    } else {
        let init = records.drop_last();
        let last = records.last();
        lemma_delta_records_append(prefix, init);
        lemma_delta_bytes_len(init);
        assert(prefix + delta_bytes(records) =~= (prefix + delta_bytes(init)) + u64_le(last.0)
            + posting_bytes(last.1));
        lemma_delta_records_push(prefix + delta_bytes(init), last.0, last.1);
        assert(delta_records(prefix) + records =~= (delta_records(prefix) + init).push(last));
    }
}

proof fn lemma_postings_for_append(a: Seq<(u64, PostingEntry)>, b: Seq<(u64, PostingEntry)>, h: u64)
    ensures
        postings_for(a + b, h) == postings_for(a, h) + postings_for(b, h),
    decreases b.len(),
{
    if b.len() == 0 {
        assert(a + b =~= a);
        assert(postings_for(a, h) + postings_for(b, h) =~= postings_for(a, h));
    } else {
        lemma_postings_for_append(a, b.drop_last(), h);
        assert((a + b).drop_last() =~= a + b.drop_last());
        assert((a + b).last() == b.last());
        if b.last().0 == h {
            assert(postings_for(a, h) + postings_for(b, h) =~= (postings_for(a, h) + postings_for(
                b.drop_last(),
                h,
            )).push(b.last().1));
        }
    }
}

/// Reading the delta after an append: for a file of whole records, the
/// postings found for a hash are those found before the append followed by
/// the appended entries' postings for that hash, in order.
pub proof fn lemma_delta_append_reads_back(
    before: Seq<u8>,
    entries: Seq<(Ngram, PostingEntry)>,
    h: u64,
)
    requires
        before.len() % (DELTA_RECORD_SIZE as nat) == 0,
    ensures
        postings_for(delta_records(before + delta_bytes(entries_records(entries))), h)
            == postings_for(delta_records(before), h) + postings_for(entries_records(entries), h),
{
    lemma_delta_records_append(before, entries_records(entries));
    lemma_postings_for_append(delta_records(before), entries_records(entries), h);
}

/// An appended file still consists of whole records.
pub proof fn lemma_delta_append_whole_records(before: Seq<u8>, entries: Seq<(Ngram, PostingEntry)>)
    requires
        before.len() % (DELTA_RECORD_SIZE as nat) == 0,
    ensures
        (before + delta_bytes(entries_records(entries))).len() % (DELTA_RECORD_SIZE as nat) == 0,
{
    lemma_delta_bytes_len(entries_records(entries));
}

/// The file after appending each batch of entries in turn to `before`.
pub open spec fn append_batches(before: Seq<u8>, batches: Seq<Seq<(Ngram, PostingEntry)>>) -> Seq<u8>
    decreases batches.len(),
{
    if batches.len() == 0 {
        before
    } else {
        append_batches(before, batches.drop_last()) + delta_bytes(entries_records(batches.last()))
    }
}

/// The records of all batches, one batch after the other.
pub open spec fn batches_records(batches: Seq<Seq<(Ngram, PostingEntry)>>) -> Seq<(u64, PostingEntry)>
    decreases batches.len(),
{
    if batches.len() == 0 {
        Seq::empty()
    } else {
        batches_records(batches.drop_last()) + entries_records(batches.last())
    }
}

/// Reading the delta after several appends: for a file of whole records
/// (an empty or missing file among them), the postings found for a hash
/// after appending each batch in turn are those found before followed by
/// the postings of that hash in all appended entries, in append order, and
/// the file still consists of whole records.
pub proof fn lemma_delta_appends_read_back(
    before: Seq<u8>,
    batches: Seq<Seq<(Ngram, PostingEntry)>>,
    h: u64,
)
    requires
        before.len() % (DELTA_RECORD_SIZE as nat) == 0,
    ensures
        append_batches(before, batches).len() % (DELTA_RECORD_SIZE as nat) == 0,
        postings_for(delta_records(append_batches(before, batches)), h) == postings_for(
            delta_records(before),
            h,
        ) + postings_for(batches_records(batches), h),
    decreases batches.len(),
{
    if batches.len() == 0 {
        assert(postings_for(batches_records(batches), h) =~= Seq::<PostingEntry>::empty());
        assert(postings_for(delta_records(before), h) + Seq::<PostingEntry>::empty() =~= postings_for(
            delta_records(before),
            h,
        ));
    } else {
        let init = batches.drop_last();
        let last = batches.last();
        let mid = append_batches(before, init);
        lemma_delta_appends_read_back(before, init, h);
        lemma_delta_append_reads_back(mid, last, h);
        lemma_delta_append_whole_records(mid, last);
        lemma_postings_for_append(batches_records(init), entries_records(last), h);
        assert(postings_for(delta_records(before), h) + postings_for(batches_records(batches), h)
            =~= postings_for(delta_records(before), h) + postings_for(batches_records(init), h)
            + postings_for(entries_records(last), h));
    }
}

} // verus!
