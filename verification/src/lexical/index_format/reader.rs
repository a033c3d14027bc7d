//! Reader over the two index files, with binary-search lookup by n-gram hash.
use vstd::prelude::*;

use crate::lexical::{
    header_fields_match, magic_bytes, parse_posting_at, IndexHeader, Ngram, PostingEntry,
    INDEX_FORMAT_VERSION, INDEX_HEADER_SIZE, POSTING_ENTRY_SIZE,
};
use crate::types::error::CorruptionKind;
use crate::types::query::{SearchField, FIELD_COUNT};

use super::entry::{parse_entry_at, IndexEntry, INDEX_ENTRY_SIZE};

verus! {

/// Maximum postings file size in bytes (4 GB).
pub const MAX_SKPOST_BYTES: usize = 4_000_000_000;

/// The `i`-th record of the lookup table in a lookup file.
pub open spec fn table_entry(lookup: Seq<u8>, i: int) -> IndexEntry {
    parse_entry_at(lookup, INDEX_HEADER_SIZE + INDEX_ENTRY_SIZE * i)
}

/// The number of n-grams a lookup file's header announces.
pub open spec fn announced_ngrams(lookup: Seq<u8>) -> int {
    crate::lexical::le::le_u64_at(lookup, 8) as int
}

/// The file count a lookup file's header announces.
pub open spec fn announced_files(lookup: Seq<u8>) -> u64 {
    crate::lexical::le::le_u64_at(lookup, 16)
}

/// The checks made when opening an index all pass: a header with the right
/// magic and version, a lookup file of exactly header + one record per
/// announced n-gram, and a postings file within the size limit and made of
/// whole postings.
pub open spec fn index_accepts(lookup: Seq<u8>, post: Seq<u8>) -> bool {
    &&& lookup.len() >= INDEX_HEADER_SIZE
    &&& lookup.subrange(0, 4) == magic_bytes()
    &&& crate::lexical::le::le_u32_at(lookup, 4) == INDEX_FORMAT_VERSION
    &&& INDEX_HEADER_SIZE + INDEX_ENTRY_SIZE * announced_ngrams(lookup) <= usize::MAX
    &&& lookup.len() == INDEX_HEADER_SIZE + INDEX_ENTRY_SIZE * announced_ngrams(lookup)
    &&& post.len() <= MAX_SKPOST_BYTES
    &&& post.len() % (POSTING_ENTRY_SIZE as nat) == 0
}

/// The lookup table's hashes are strictly increasing, as the writer leaves them.
pub open spec fn table_sorted(lookup: Seq<u8>, n: int) -> bool {
    forall|i: int, j: int|
        0 <= i < j < n ==> table_entry(lookup, i).ngram_hash < table_entry(lookup, j).ngram_hash
}

/// Every record's posting range lies within a postings file of `post_len` bytes.
pub open spec fn entry_in_bounds(e: IndexEntry, post_len: int) -> bool {
    e.posting_offset + POSTING_ENTRY_SIZE * e.posting_length <= post_len
}

/// A posting is kept by a lookup: its field code is known and its doc_id is
/// below the index's file count.
pub open spec fn posting_valid(p: PostingEntry, file_count: u64) -> bool {
    p.field_id < FIELD_COUNT && (p.doc_id as u64) < file_count
}

/// How many whole postings of a record lie within the postings file.
pub open spec fn readable_postings(post_len: int, e: IndexEntry) -> int {
    if e.posting_offset > post_len {
        0
    } else {
        let fit = (post_len - e.posting_offset) / (POSTING_ENTRY_SIZE as int);
        if (e.posting_length as int) < fit {
            e.posting_length as int
        } else {
            fit
        }
    }
}

/// The postings stored for a record, as far as they lie within the file.
pub open spec fn stored_postings(post: Seq<u8>, e: IndexEntry) -> Seq<PostingEntry> {
    Seq::new(
        readable_postings(post.len() as int, e) as nat,
        |k: int| parse_posting_at(post, e.posting_offset + POSTING_ENTRY_SIZE * k),
    )
}

/// What a lookup returns for a record: its stored postings that are valid.
pub open spec fn read_postings(post: Seq<u8>, e: IndexEntry, file_count: u64) -> Seq<PostingEntry> {
    stored_postings(post, e).filter(|p: PostingEntry| posting_valid(p, file_count))
}

/// Reader over the contents of a lookup file and a postings file that
/// passed the open-time checks.
pub struct IndexReader {
    lookup: Vec<u8>,
    postings: Vec<u8>,
    header: IndexHeader,
    ngram_count: usize,
}

impl IndexReader {
    #[verifier::type_invariant]
    spec fn inv(self) -> bool {
        &&& index_accepts(self.lookup@, self.postings@)
        &&& header_fields_match(self.header, self.lookup@)
        &&& self.ngram_count == announced_ngrams(self.lookup@)
    }

    /// Contents of the lookup file.
    pub closed spec fn lookup_bytes(self) -> Seq<u8> {
        self.lookup@
    }

    /// Contents of the postings file.
    pub closed spec fn postings_bytes(self) -> Seq<u8> {
        self.postings@
    }

    /// Number of records in the lookup table.
    pub closed spec fn ngrams(self) -> int {
        self.ngram_count as int
    }

    /// The parsed header.
    pub closed spec fn spec_header(self) -> IndexHeader {
        self.header
    }

    /// Check and wrap the contents of the two files. The checks run in
    /// order: header size, magic, version, table size, postings size and
    /// postings alignment; the first that fails is reported.
    pub fn from_bytes(lookup: Vec<u8>, postings: Vec<u8>) -> (r: Result<Self, CorruptionKind>)
        ensures
            r is Ok <==> index_accepts(lookup@, postings@),
            r matches Ok(rd) ==> {
                &&& rd.lookup_bytes() == lookup@
                &&& rd.postings_bytes() == postings@
                &&& rd.ngrams() == announced_ngrams(lookup@)
                &&& header_fields_match(rd.spec_header(), lookup@)
            },
            lookup@.len() < INDEX_HEADER_SIZE ==> r == Err::<Self, CorruptionKind>(
                CorruptionKind::HeaderTooSmall { len: lookup@.len() as usize },
            ),
            lookup@.len() >= INDEX_HEADER_SIZE && lookup@.subrange(0, 4) != magic_bytes() ==> (
            r matches Err(CorruptionKind::BadMagic { magic }) && magic@ == lookup@.subrange(0, 4)),
            lookup@.len() >= INDEX_HEADER_SIZE && lookup@.subrange(0, 4) == magic_bytes()
                && crate::lexical::le::le_u32_at(lookup@, 4) != INDEX_FORMAT_VERSION ==> r == Err::<
                Self,
                CorruptionKind,
            >(
                CorruptionKind::UnsupportedVersion {
                    version: crate::lexical::le::le_u32_at(lookup@, 4),
                },
            ),
            lookup@.len() >= INDEX_HEADER_SIZE && lookup@.subrange(0, 4) == magic_bytes()
                && crate::lexical::le::le_u32_at(lookup@, 4) == INDEX_FORMAT_VERSION
                && announced_ngrams(lookup@) > usize::MAX ==> r == Err::<Self, CorruptionKind>(
                CorruptionKind::NgramCountTooLarge { count: announced_ngrams(lookup@) as u64 },
            ),
            lookup@.len() >= INDEX_HEADER_SIZE && lookup@.subrange(0, 4) == magic_bytes()
                && crate::lexical::le::le_u32_at(lookup@, 4) == INDEX_FORMAT_VERSION
                && announced_ngrams(lookup@) <= usize::MAX
                && INDEX_HEADER_SIZE + INDEX_ENTRY_SIZE * announced_ngrams(lookup@) > usize::MAX
                ==> r == Err::<Self, CorruptionKind>(
                CorruptionKind::TableSizeOverflow { ngrams: announced_ngrams(lookup@) as usize },
            ),
            lookup@.len() >= INDEX_HEADER_SIZE && lookup@.subrange(0, 4) == magic_bytes()
                && crate::lexical::le::le_u32_at(lookup@, 4) == INDEX_FORMAT_VERSION
                && INDEX_HEADER_SIZE + INDEX_ENTRY_SIZE * announced_ngrams(lookup@) <= usize::MAX
                && lookup@.len() != INDEX_HEADER_SIZE + INDEX_ENTRY_SIZE * announced_ngrams(lookup@)
                ==> r == Err::<Self, CorruptionKind>(
                CorruptionKind::IndexSizeMismatch {
                    expected: (INDEX_HEADER_SIZE + INDEX_ENTRY_SIZE * announced_ngrams(
                        lookup@,
                    )) as usize,
                    ngram_count: announced_ngrams(lookup@) as usize,
                    actual: lookup@.len() as usize,
                },
            ),
            lookup@.len() >= INDEX_HEADER_SIZE && lookup@.subrange(0, 4) == magic_bytes()
                && crate::lexical::le::le_u32_at(lookup@, 4) == INDEX_FORMAT_VERSION
                && lookup@.len() == INDEX_HEADER_SIZE + INDEX_ENTRY_SIZE * announced_ngrams(lookup@)
                && postings@.len() > MAX_SKPOST_BYTES ==> r == Err::<Self, CorruptionKind>(
                CorruptionKind::PostingsTooLarge { size: postings@.len() as usize },
            ),
            lookup@.len() >= INDEX_HEADER_SIZE && lookup@.subrange(0, 4) == magic_bytes()
                && crate::lexical::le::le_u32_at(lookup@, 4) == INDEX_FORMAT_VERSION
                && lookup@.len() == INDEX_HEADER_SIZE + INDEX_ENTRY_SIZE * announced_ngrams(lookup@)
                && postings@.len() <= MAX_SKPOST_BYTES && postings@.len() % (
            POSTING_ENTRY_SIZE as nat) != 0 ==> r == Err::<Self, CorruptionKind>(
                CorruptionKind::PostingsMisaligned { size: postings@.len() as usize },
            ),
    {
        let idx_len = lookup.len();
        if idx_len < INDEX_HEADER_SIZE {
            return Err(CorruptionKind::HeaderTooSmall { len: idx_len });
        }
        let header = match IndexHeader::from_bytes(lookup.as_slice()) {
            Some(h) => h,
            None => {
                return Err(CorruptionKind::HeaderTooSmall { len: idx_len });
            },
        };
        let magic = header.magic;
        if !(magic[0] == 0x53u8 && magic[1] == 0x4bu8 && magic[2] == 0x49u8 && magic[3] == 0x4du8) {
            proof {
                if lookup@.subrange(0, 4) == magic_bytes() {
                    assert(magic@[0] == lookup@.subrange(0, 4)[0]);
                    assert(magic@[1] == lookup@.subrange(0, 4)[1]);
                    assert(magic@[2] == lookup@.subrange(0, 4)[2]);
                    assert(magic@[3] == lookup@.subrange(0, 4)[3]);
                }
            }
            return Err(CorruptionKind::BadMagic { magic });
        }
        proof {
            assert(lookup@.subrange(0, 4) =~= magic_bytes());
        }
        if header.version != INDEX_FORMAT_VERSION {
            return Err(CorruptionKind::UnsupportedVersion { version: header.version });
        }
        if header.ngram_count > usize::MAX as u64 {
            return Err(CorruptionKind::NgramCountTooLarge { count: header.ngram_count });
        }
        let ngram_count = header.ngram_count as usize;
        let expected = match ngram_count.checked_mul(INDEX_ENTRY_SIZE) {
            Some(t) => t.checked_add(INDEX_HEADER_SIZE),
            None => None,
        };
        let expected = match expected {
            Some(e) => e,
            None => {
                return Err(CorruptionKind::TableSizeOverflow { ngrams: ngram_count });
            },
        };
        if idx_len != expected {
            return Err(
                CorruptionKind::IndexSizeMismatch { expected, ngram_count, actual: idx_len },
            );
        }
        let post_len = postings.len();
        if post_len > MAX_SKPOST_BYTES {
            return Err(CorruptionKind::PostingsTooLarge { size: post_len });
        }
        if post_len % POSTING_ENTRY_SIZE != 0 {
            return Err(CorruptionKind::PostingsMisaligned { size: post_len });
        }
        Ok(IndexReader { lookup, postings, header, ngram_count })
    }

    /// The parsed index header.
    pub fn header(&self) -> (r: &IndexHeader)
        ensures
            *r == self.spec_header(),
            header_fields_match(*r, self.lookup_bytes()),
    {
        proof {
            use_type_invariant(self);
        }
        &self.header
    }

    /// Full per-record check that every posting range lies within the
    /// postings file; reports the first record that does not.
    pub fn validate(&self) -> (r: Result<(), CorruptionKind>)
        ensures
            r is Ok <==> (forall|i: int|
                0 <= i < self.ngrams() ==> entry_in_bounds(
                    #[trigger] table_entry(self.lookup_bytes(), i),
                    self.postings_bytes().len() as int,
                )),
            r matches Err(k) ==> exists|i: int|
                0 <= i < self.ngrams() && (forall|j: int|
                    0 <= j < i ==> entry_in_bounds(
                        #[trigger] table_entry(self.lookup_bytes(), j),
                        self.postings_bytes().len() as int,
                    )) && !entry_in_bounds(
                    table_entry(self.lookup_bytes(), i),
                    self.postings_bytes().len() as int,
                ) && k == (if POSTING_ENTRY_SIZE * table_entry(self.lookup_bytes(), i).posting_length
                    > usize::MAX {
                    CorruptionKind::PostingLengthOverflow { entry: i as usize }
                } else if table_entry(self.lookup_bytes(), i).posting_offset + POSTING_ENTRY_SIZE
                    * table_entry(self.lookup_bytes(), i).posting_length > usize::MAX {
                    CorruptionKind::PostingRangeOverflow { entry: i as usize }
                } else {
                    CorruptionKind::PostingRangeOutOfBounds {
                        entry: i as usize,
                        start: table_entry(self.lookup_bytes(), i).posting_offset as usize,
                        end: (table_entry(self.lookup_bytes(), i).posting_offset + POSTING_ENTRY_SIZE
                            * table_entry(self.lookup_bytes(), i).posting_length) as usize,
                        size: self.postings_bytes().len() as usize,
                    }
                }),
    {
        proof {
            use_type_invariant(self);
        }
        let post_size = self.postings.len();
        let mut i: usize = 0;
        while i < self.ngram_count
            invariant
                i <= self.ngram_count,
                self.ngram_count == announced_ngrams(self.lookup@),
                index_accepts(self.lookup@, self.postings@),
                post_size == self.postings@.len(),
                forall|j: int|
                    0 <= j < i ==> entry_in_bounds(
                        #[trigger] table_entry(self.lookup@, j),
                        post_size as int,
                    ),
            decreases self.ngram_count - i,
        {
            let offset = INDEX_HEADER_SIZE + i * INDEX_ENTRY_SIZE;
            let entry = IndexEntry::read_at(self.lookup.as_slice(), offset);
            assert(entry == table_entry(self.lookup_bytes(), i as int));
            let byte_length = match (entry.posting_length as usize).checked_mul(POSTING_ENTRY_SIZE) {
                Some(l) => l,
                None => {
                    return Err(CorruptionKind::PostingLengthOverflow { entry: i });
                },
            };
            if entry.posting_offset > usize::MAX as u64 {
                return Err(CorruptionKind::PostingRangeOverflow { entry: i });
            }
            let byte_start = entry.posting_offset as usize;
            let byte_end = match byte_start.checked_add(byte_length) {
                Some(e) => e,
                None => {
                    return Err(CorruptionKind::PostingRangeOverflow { entry: i });
                },
            };
            if byte_end > post_size {
                return Err(
                    CorruptionKind::PostingRangeOutOfBounds {
                        entry: i,
                        start: byte_start,
                        end: byte_end,
                        size: post_size,
                    },
                );
            }
            i = i + 1;
        }
        Ok(())
    }

    /// Binary search for an n-gram hash; `Some` of its valid postings when
    /// found, `None` otherwise.
    pub fn lookup(&self, ngram: Ngram) -> (r: Option<Vec<PostingEntry>>)
        ensures
            r matches Some(v) ==> exists|i: int|
                0 <= i < self.ngrams() && #[trigger] table_entry(self.lookup_bytes(), i).ngram_hash
                    == ngram@ && v@ == read_postings(
                    self.postings_bytes(),
                    table_entry(self.lookup_bytes(), i),
                    self.spec_header().file_count,
                ),
            table_sorted(self.lookup_bytes(), self.ngrams()) ==> (r is Some <==> exists|i: int|
                0 <= i < self.ngrams() && #[trigger] table_entry(self.lookup_bytes(), i).ngram_hash
                    == ngram@),
    {
        let mut buf: Vec<PostingEntry> = Vec::new();
        if self.lookup_into(ngram, &mut buf) {
            Some(buf)
        } else {
            None
        }
    }

    /// Binary search for an n-gram hash, writing its valid postings into a
    /// caller-owned buffer (cleared first). Returns whether it was found.
    pub fn lookup_into(&self, ngram: Ngram, buf: &mut Vec<PostingEntry>) -> (r: bool)
        ensures
            r ==> exists|i: int|
                0 <= i < self.ngrams() && #[trigger] table_entry(self.lookup_bytes(), i).ngram_hash
                    == ngram@ && final(buf)@ == read_postings(
                    self.postings_bytes(),
                    table_entry(self.lookup_bytes(), i),
                    self.spec_header().file_count,
                ),
            !r ==> final(buf)@ == Seq::<PostingEntry>::empty(),
            table_sorted(self.lookup_bytes(), self.ngrams()) ==> (r <==> exists|i: int|
                0 <= i < self.ngrams() && #[trigger] table_entry(self.lookup_bytes(), i).ngram_hash
                    == ngram@),
    {
        proof {
            use_type_invariant(self);
        }
        buf.clear();
        let target = ngram.as_u64();
        let mut lo: usize = 0;
        let mut hi: usize = self.ngram_count;
        while lo < hi
            invariant
                lo <= hi <= self.ngram_count,
                self.ngram_count == announced_ngrams(self.lookup@),
                index_accepts(self.lookup@, self.postings@),
                buf@ == Seq::<PostingEntry>::empty(),
                target == ngram@,
                table_sorted(self.lookup@, self.ngram_count as int) ==> (forall|k: int|
                    0 <= k < lo ==> #[trigger] table_entry(self.lookup@, k).ngram_hash < target),
                table_sorted(self.lookup@, self.ngram_count as int) ==> (forall|k: int|
                    hi <= k < self.ngram_count ==> #[trigger] table_entry(self.lookup@, k).ngram_hash
                        > target),
            decreases hi - lo,
        {
            let mid = lo + (hi - lo) / 2;
            let offset = INDEX_HEADER_SIZE + mid * INDEX_ENTRY_SIZE;
            let entry = IndexEntry::read_at(self.lookup.as_slice(), offset);
            assert(entry == table_entry(self.lookup@, mid as int));
            if entry.ngram_hash == target {
                self.read_postings_into(&entry, buf);
                assert(table_entry(self.lookup_bytes(), mid as int).ngram_hash == ngram@);
                return true;
            } else if entry.ngram_hash < target {
                lo = mid + 1;
            } else {
                hi = mid;
            }
        }
        proof {
            if table_sorted(self.lookup@, self.ngram_count as int) {
                assert forall|i: int| 0 <= i < self.ngram_count implies #[trigger] table_entry(
                    self.lookup@,
                    i,
                ).ngram_hash != target by {
                    assert(i < lo || i >= hi);
                }
            }
        }
        false
    }

    /// Decode a record's postings into `buf` (cleared first), keeping those
    /// with a known field code and a doc_id below the file count.
    fn read_postings_into(&self, entry: &IndexEntry, buf: &mut Vec<PostingEntry>)
        ensures
            final(buf)@ == read_postings(self.postings@, *entry, self.header.file_count),
    {
        proof {
            use_type_invariant(self);
        }
        buf.clear();
        let post_len = self.postings.len();
        let start: usize = if entry.posting_offset > post_len as u64 {
            post_len
        } else {
            entry.posting_offset as usize
        };
        let fit: usize = if entry.posting_offset > post_len as u64 {
            0
        } else {
            (post_len - start) / POSTING_ENTRY_SIZE
        };
        let count: usize = if (entry.posting_length as usize) < fit {
            entry.posting_length as usize
        } else {
            fit
        };
        let file_count = self.header.file_count;
        let ghost pred = |p: PostingEntry| posting_valid(p, file_count);
        let ghost stored = stored_postings(self.postings@, *entry);
        assert(stored.len() == count);
        let mut i: usize = 0;
        while i < count
            invariant
                i <= count,
                count == stored.len(),
                post_len == self.postings@.len(),
                stored == stored_postings(self.postings@, *entry),
                count > 0 ==> start == entry.posting_offset && start + POSTING_ENTRY_SIZE * count
                    <= post_len,
                file_count == self.header.file_count,
                pred == (|p: PostingEntry| posting_valid(p, file_count)),
                buf@ == stored.take(i as int).filter(pred),
            decreases count - i,
        {
            let byte_offset = start + i * POSTING_ENTRY_SIZE;
            let p = PostingEntry::read_at(self.postings.as_slice(), byte_offset);
            assert(p == stored[i as int]);
            proof {
                assert(stored.take(i as int + 1) =~= stored.take(i as int).push(p));
                stored.take(i as int).lemma_filter_push(p, pred);
            }
            let known = match SearchField::from_u8(p.field_id) {
                Some(_) => true,
                None => false,
            };
            if known && (p.doc_id as u64) < file_count {
                buf.push(p);
            }
            i = i + 1;
        }
        assert(stored.take(count as int) =~= stored);
    }
}

} // verus!
