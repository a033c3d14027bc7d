//! Index construction: files are registered, their classified regions cut
//! into weighted n-grams, and the postings accumulated per n-gram until the
//! index is finished.
//!
//! Parsing and field classification happen before a file reaches the
//! builder, which receives the classified byte regions of each file.
use std::ops::Range;
use vstd::prelude::*;
use vstd::string::StringSliceAdditionalSpecFns;

use crate::fields::markdown_fields::{lines_of, lines_scan, regions_view};
use crate::types::error::{BuildError, SearchError};
use crate::types::file_table::{id_for, key_known, lemma_registered_id, registered, FileTable};
use vstd::utf8::encode_utf8;
use crate::types::path::{
    lemma_key_normalized, normalized, parts_absolute, path_key, stays_within, stored_form,
};
use crate::types::query::{field_code, SearchField};

use super::ngram::{extract_ngrams_bytes, index_ngrams, weighted_view};
use super::postings::{keys_increasing, lists_map, map_add, map_add_all, PostingLists};
use super::index_format::entry::INDEX_ENTRY_SIZE;
use super::index_format::reader::{
    index_accepts, posting_valid, read_postings, table_entry, MAX_SKPOST_BYTES,
};
use super::index_format::roundtrip::lemma_written_index_reads_back;
use super::index_format::writer::{
    all_postings_bytes, build_failure_from, index_model, lookup_file_bytes, postings_before,
};
use super::{
    index_magic, magic_bytes, IndexHeader, Ngram, PostingEntry, INDEX_FORMAT_VERSION,
    INDEX_HEADER_SIZE, POSTING_ENTRY_SIZE,
};

verus! {

/// Files larger than this many bytes are skipped.
pub const MAX_FILE_BYTES: usize = 5_000_000;

/// Files whose average line is longer than this many bytes are treated as
/// minified and skipped.
pub const MAX_AVG_LINE_BYTES: usize = 500;

/// The number of lines of a text, as `str::lines` counts them.
pub open spec fn line_count(b: Seq<u8>) -> int {
    lines_of(b).len() as int
}

/// Whether a file is left out of the index: too large, or minified (its
/// average line, over at least one line, is too long).
pub open spec fn skipped_file(b: Seq<u8>) -> bool {
    b.len() > MAX_FILE_BYTES || b.len() / (if line_count(b) > 1 {
        line_count(b)
    } else {
        1
    }) as nat > MAX_AVG_LINE_BYTES
}

/// A term frequency from an n-gram weight: at least 1, at most `u16::MAX`.
pub open spec fn tf_of(w: int) -> u16 {
    if w < 1 {
        1
    } else if w > u16::MAX {
        u16::MAX
    } else {
        w as u16
    }
}

/// A posting position from a byte offset, saturated at `u32::MAX`.
pub open spec fn position_of(start: int) -> u32 {
    if start > u32::MAX {
        u32::MAX
    } else {
        start as u32
    }
}

/// The postings of one classified region `(start, end, field)`: one per
/// distinct n-gram of the region's bytes, at the region's start.
pub open spec fn region_events(content: Seq<u8>, r: (int, int, SearchField), doc_id: u32) -> Seq<
    (u64, PostingEntry),
> {
    index_ngrams(content.subrange(r.0, r.1)).map_values(
        |x: (u64, int)|
            (
                x.0,
                PostingEntry {
                    doc_id,
                    field_id: field_code(r.2),
                    position: position_of(r.0),
                    tf: tf_of(x.1),
                },
            ),
    )
}

/// The postings of all regions, region after region.
pub open spec fn regions_events(
    content: Seq<u8>,
    regions: Seq<(int, int, SearchField)>,
    doc_id: u32,
) -> Seq<(u64, PostingEntry)>
    decreases regions.len(),
{
    if regions.len() == 0 {
        Seq::empty()
    } else {
        regions_events(content, regions.drop_last(), doc_id) + region_events(
            content,
            regions.last(),
            doc_id,
        )
    }
}

/// The postings of the whole text as a function body, position 0, term
/// frequency 1: used when the regions give no n-gram at all.
pub open spec fn fallback_events(content: Seq<u8>, doc_id: u32) -> Seq<(u64, PostingEntry)> {
    index_ngrams(content).map_values(
        |x: (u64, int)|
            (
                x.0,
                PostingEntry {
                    doc_id,
                    field_id: field_code(SearchField::FunctionBody),
                    position: 0,
                    tf: 1,
                },
            ),
    )
}

/// The postings a file contributes.
pub open spec fn file_events(
    content: Seq<u8>,
    regions: Seq<(int, int, SearchField)>,
    doc_id: u32,
) -> Seq<(u64, PostingEntry)> {
    if regions_events(content, regions, doc_id).len() == 0 {
        fallback_events(content, doc_id)
    } else {
        regions_events(content, regions, doc_id)
    }
}

/// A document length: the number of postings, saturated at `u32::MAX`.
pub open spec fn doc_len_of(n: int) -> u32 {
    if n > u32::MAX {
        u32::MAX
    } else {
        n as u32
    }
}

/// Count the lines of a text as `str::lines` does.
pub fn count_lines(b: &[u8]) -> (r: usize)
    ensures
        r == line_count(b@),
{
    let len = b.len();
    let ghost s = b@;
    let mut count: usize = 0;
    let mut start: usize = 0;
    let mut i: usize = 0;
    while i < len
        invariant
            len == s.len(),
            s == b@,
            start <= i <= len,
            count <= start,
            count + lines_scan(s, start as int, i as int).len() == lines_of(s).len(),
        decreases len - i,
    {
        if b[i] == 0x0a {
            assert(lines_scan(s, start as int, i as int).len() == 1 + lines_scan(
                s,
                i + 1,
                i + 1,
            ).len());
            count = count + 1;
            start = i + 1;
        } else {
            assert(lines_scan(s, start as int, i as int) == lines_scan(s, start as int, i + 1));
        }
        i = i + 1;
    }
    if start < len {
        count + 1
    } else {
        count
    }
}

/// Whether a file is left out of the index.
pub fn is_skipped(content: &[u8]) -> (r: bool)
    ensures
        r == skipped_file(content@),
{
    let len = content.len();
    if len > MAX_FILE_BYTES {
        return true;
    }
    let lines = count_lines(content);
    let lines = if lines > 1 {
        lines
    } else {
        1
    };
    len / lines > MAX_AVG_LINE_BYTES
}

/// A term frequency from an n-gram weight.
fn tf_from_weight(w: u64) -> (r: u16)
    ensures
        r == tf_of(w as int),
{
    if w < 1 {
        1
    } else if w > 65535 {
        65535
    } else {
        w as u16
    }
}

/// A posting position from a byte offset.
fn position_from(start: usize) -> (r: u32)
    ensures
        r == position_of(start as int),
{
    if start > 4294967295usize {
        4294967295
    } else {
        start as u32
    }
}

/// Add `n` to a document length, saturating.
fn doc_len_add(len: u32, n: usize) -> (r: u32)
    ensures
        r as int == (if len + n > u32::MAX {
            u32::MAX as int
        } else {
            len + n
        }),
{
    if n > 4294967295usize || len as u64 + n as u64 > 4294967295u64 {
        4294967295
    } else {
        len + n as u32
    }
}

/// Everything a finished build hands over for writing: the posting lists
/// in increasing hash order, the header, and the per-file records.
pub struct BuiltIndex {
    pub entries: Vec<(Ngram, Vec<PostingEntry>)>,
    pub header: IndexHeader,
    pub file_table: FileTable,
    pub doc_lengths: Vec<u32>,
    pub file_mtimes: Vec<(String, u64)>,
    pub repo_root: String,
}

/// Whether a file key is admitted under `root`: it is relative and stays
/// within the root.
pub open spec fn admitted(key: Seq<u8>, root: Seq<u8>) -> bool {
    !parts_absolute(normalized(key)) && stays_within(key, root)
}

/// Builder for the lexical index: accumulates postings from many files,
/// then hands them over sorted for writing.
pub struct LexicalLayerBuilder {
    repo_root: String,
    file_table: FileTable,
    postings: PostingLists,
    doc_lengths: Vec<u32>,
    file_mtimes: Vec<(String, u64)>,
}

impl LexicalLayerBuilder {
    /// The builder's parts are well formed, and every registered file is
    /// admitted under the root.
    pub closed spec fn wf(self) -> bool {
        &&& self.file_table.wf()
        &&& self.postings.wf()
        &&& forall|i: int|
            0 <= i < self.file_table.keys().len() ==> admitted(
                #[trigger] self.file_table.keys()[i],
                self.root_bytes(),
            )
    }

    /// The accumulated postings per n-gram hash.
    pub closed spec fn postings_map(self) -> Map<u64, Seq<PostingEntry>> {
        lists_map(self.postings.entries())
    }

    /// The keys of the registered files, in id order.
    pub closed spec fn file_keys(self) -> Seq<Seq<u8>> {
        self.file_table.keys()
    }

    /// The registered files as kept, in id order.
    pub closed spec fn file_paths(self) -> Seq<Seq<u8>> {
        self.file_table.path_bytes()
    }

    /// The length of each indexed document, in order of indexing.
    pub closed spec fn doc_lengths(self) -> Seq<u32> {
        self.doc_lengths@
    }

    /// The path and modification time of each indexed file.
    pub closed spec fn file_mtimes(self) -> Seq<(Seq<char>, u64)> {
        self.file_mtimes@.map_values(|e: (String, u64)| (e.0@, e.1))
    }

    /// The project root that files are confined to.
    pub closed spec fn root(self) -> Seq<char> {
        self.repo_root@
    }

    /// The project root as UTF-8 bytes.
    pub open spec fn root_bytes(self) -> Seq<u8> {
        encode_utf8(self.root())
    }

    /// Two builders hold the same files, postings, lengths and times.
    pub open spec fn same_content(self, other: Self) -> bool {
        &&& self.file_keys() == other.file_keys()
        &&& self.file_paths() == other.file_paths()
        &&& self.postings_map() == other.postings_map()
        &&& self.doc_lengths() == other.doc_lengths()
        &&& self.file_mtimes() == other.file_mtimes()
    }

    /// A builder with nothing indexed, confining files to `repo_root`.
    pub fn new(repo_root: String) -> (r: Self)
        ensures
            r.wf(),
            r.root() == repo_root@,
            r.postings_map() == Map::<u64, Seq<PostingEntry>>::empty(),
            r.file_keys().len() == 0,
            r.doc_lengths().len() == 0,
            r.file_mtimes().len() == 0,
    {
        let r = LexicalLayerBuilder {
            repo_root,
            file_table: FileTable::new(),
            postings: PostingLists::new(),
            doc_lengths: Vec::new(),
            file_mtimes: Vec::new(),
        };
        assert(r.file_mtimes() =~= Seq::<(Seq<char>, u64)>::empty());
        r
    }

    /// Add the postings of one region.
    fn add_region(
        &mut self,
        content: &[u8],
        start: usize,
        end: usize,
        field: SearchField,
        doc_id: u32,
        doc_len: u32,
    ) -> (r: u32)
        requires
            old(self).wf(),
            start <= end <= content@.len(),
            content@.len() <= isize::MAX,
        ensures
            final(self).wf(),
            final(self).postings_map() == map_add_all(
                old(self).postings_map(),
                region_events(content@, (start as int, end as int, field), doc_id),
            ),
            r as int == (if doc_len + region_events(
                content@,
                (start as int, end as int, field),
                doc_id,
            ).len() > u32::MAX {
                u32::MAX as int
            } else {
                doc_len + region_events(content@, (start as int, end as int, field), doc_id).len()
            }),
            final(self).file_table == old(self).file_table,
            final(self).doc_lengths == old(self).doc_lengths,
            final(self).file_mtimes == old(self).file_mtimes,
            final(self).repo_root == old(self).repo_root,
    {
        let text = vstd::slice::slice_subrange(content, start, end);
        let ngrams = extract_ngrams_bytes(text);
        let ghost evs = region_events(content@, (start as int, end as int, field), doc_id);
        let ghost m0 = self.postings_map();
        let field_id = field.as_u8();
        let position = position_from(start);
        let mut k: usize = 0;
        proof {
            assert(evs.take(0) =~= Seq::<(u64, PostingEntry)>::empty());
        }
        while k < ngrams.len()
            invariant
                k <= ngrams@.len(),
                self.wf(),
                weighted_view(ngrams@) == index_ngrams(text@),
                text@ == content@.subrange(start as int, end as int),
                evs == region_events(content@, (start as int, end as int, field), doc_id),
                evs.len() == ngrams@.len(),
                field_id == field_code(field),
                position == position_of(start as int),
                self.postings_map() == map_add_all(m0, evs.take(k as int)),
                self.file_table == old(self).file_table,
                self.doc_lengths == old(self).doc_lengths,
                self.file_mtimes == old(self).file_mtimes,
                self.repo_root == old(self).repo_root,
            decreases ngrams@.len() - k,
        {
            let (ng, w) = ngrams[k];
            let entry = PostingEntry { doc_id, field_id, position, tf: tf_from_weight(w) };
            assert(weighted_view(ngrams@)[k as int] == (ng@, w as int));
            assert(evs[k as int] == (ng@, entry));
            self.postings.add(ng, entry);
            assert(evs.take(k + 1).drop_last() =~= evs.take(k as int));
            k = k + 1;
        }
        assert(evs.take(ngrams@.len() as int) =~= evs);
        doc_len_add(doc_len, ngrams.len())
    }

    /// Add a file: skip it when it is too large or minified, else register
    /// its path inside the project root and add the postings of its
    /// classified `regions` (or, when those give none, of its whole text as
    /// a function body), then record its length and modification time.
    pub fn add_file(
        &mut self,
        path: &str,
        content: &str,
        regions: &[(Range<usize>, SearchField)],
        mtime: u64,
    ) -> (r: Result<(), SearchError>)
        requires
            old(self).wf(),
            content.spec_bytes().len() <= isize::MAX,
            forall|i: int|
                0 <= i < regions@.len() ==> #[trigger] regions@[i].0.start <= regions@[i].0.end
                    <= content.spec_bytes().len(),
        ensures
            final(self).wf(),
            final(self).root() == old(self).root(),
            skipped_file(content.spec_bytes()) ==> r is Ok && final(self).same_content(*old(self)),
            !skipped_file(content.spec_bytes()) && key_known(old(self).file_keys(), path_key(path.spec_bytes()))
                && id_for(old(self).file_keys(), path_key(path.spec_bytes())) <= u32::MAX ==> r is Ok
                && final(self).file_keys() == old(self).file_keys()
                && final(self).file_paths() == old(self).file_paths(),
            !skipped_file(content.spec_bytes()) && parts_absolute(normalized(path.spec_bytes()))
                ==> r == Err::<(), SearchError>(
                SearchError::InvalidQuery(crate::types::error::QueryError::AbsolutePath),
            ) && final(self).same_content(*old(self)),
            !skipped_file(content.spec_bytes()) && !parts_absolute(normalized(path.spec_bytes()))
                && !stays_within(path.spec_bytes(), old(self).root_bytes()) ==> r == Err::<
                (),
                SearchError,
            >(SearchError::InvalidQuery(crate::types::error::QueryError::EscapesRoot))
                && final(self).same_content(*old(self)),
            !skipped_file(content.spec_bytes()) && !parts_absolute(normalized(path.spec_bytes()))
                && stays_within(path.spec_bytes(), old(self).root_bytes()) ==> ({
                let id = id_for(old(self).file_keys(), path_key(path.spec_bytes()));
                let events = file_events(content.spec_bytes(), regions_view(regions@), id as u32);
                &&& registered(
                    old(self).file_keys(),
                    old(self).file_paths(),
                    path_key(path.spec_bytes()),
                    stored_form(path.spec_bytes()),
                    final(self).file_keys(),
                    final(self).file_paths(),
                    id as u64,
                )
                &&& id > u32::MAX ==> r == Err::<(), SearchError>(
                    SearchError::IndexBuildError(BuildError::DocIdOverflow),
                ) && final(self).postings_map() == old(self).postings_map()
                    && final(self).doc_lengths() == old(self).doc_lengths()
                    && final(self).file_mtimes() == old(self).file_mtimes()
                &&& id <= u32::MAX ==> r is Ok && final(self).postings_map() == map_add_all(
                    old(self).postings_map(),
                    events,
                ) && final(self).doc_lengths() == old(self).doc_lengths().push(
                    doc_len_of(events.len() as int),
                ) && final(self).file_mtimes() == old(self).file_mtimes().push((path@, mtime))
            }),
    {
        proof {
            let k = path_key(path.spec_bytes());
            lemma_key_normalized(path.spec_bytes());
            if key_known(old(self).file_keys(), k) {
                let i = choose|i: int| 0 <= i < old(self).file_keys().len() && old(self).file_keys()[i] == k;
                assert(admitted(old(self).file_table.keys()[i], old(self).root_bytes()));
                assert(!parts_absolute(normalized(path.spec_bytes())));
                assert(stays_within(path.spec_bytes(), old(self).root_bytes()));
            }
        }
        let bytes = content.as_bytes();
        if is_skipped(bytes) {
            return Ok(());
        }
        let ghost old_keys = self.file_table.keys();
        let ghost old_paths = self.file_table.path_bytes();
        let file_id = match self.file_table.register_within(path, self.repo_root.as_str()) {
            Ok(id) => id,
            Err(e) => {
                return Err(e);
            },
        };
        proof {
            old(self).file_table.lemma_keys_distinct();
            lemma_registered_id(
                old_keys,
                old_paths,
                path_key(path.spec_bytes()),
                stored_form(path.spec_bytes()),
                self.file_table.keys(),
                self.file_table.path_bytes(),
                file_id@,
            );
        }
        let ghost table = self.file_table;
        let raw = file_id.as_u64();
        if raw > 4294967295u64 {
            return Err(SearchError::IndexBuildError(BuildError::DocIdOverflow));
        }
        let doc_id = raw as u32;
        let ghost old_mtimes = self.file_mtimes();
        self.file_mtimes.push((path.to_owned(), mtime));
        assert(self.file_mtimes() =~= old_mtimes.push((path@, mtime)));
        let ghost m0 = self.postings_map();
        let ghost regs = regions_view(regions@);
        let mut doc_len: u32 = 0;
        let mut i: usize = 0;
        proof {
            assert(regs.take(0) =~= Seq::<(int, int, SearchField)>::empty());
        }
        while i < regions.len()
            invariant
                i <= regions@.len(),
                self.wf(),
                regs == regions_view(regions@),
                bytes@ == content.spec_bytes(),
                bytes@.len() <= isize::MAX,
                forall|j: int|
                    0 <= j < regions@.len() ==> #[trigger] regions@[j].0.start
                        <= regions@[j].0.end <= bytes@.len(),
                self.postings_map() == map_add_all(
                    m0,
                    regions_events(bytes@, regs.take(i as int), doc_id),
                ),
                doc_len == doc_len_of(regions_events(bytes@, regs.take(i as int), doc_id).len() as int),
                self.file_table == table,
                self.file_mtimes() == old_mtimes.push((path@, mtime)),
                self.doc_lengths == old(self).doc_lengths,
                self.repo_root == old(self).repo_root,
            decreases regions@.len() - i,
        {
            let start = regions[i].0.start;
            let end = regions[i].0.end;
            let field = regions[i].1;
            let ghost done = regions_events(bytes@, regs.take(i as int), doc_id);
            let ghost evs = region_events(bytes@, (start as int, end as int, field), doc_id);
            assert(regs.take(i + 1).drop_last() =~= regs.take(i as int));
            assert(regs.take(i + 1).last() == (start as int, end as int, field));
            doc_len = self.add_region(bytes, start, end, field, doc_id, doc_len);
            proof {
                lemma_map_add_all_append(m0, done, evs);
            }
            i = i + 1;
        }
        assert(regs.take(regions@.len() as int) =~= regs);
        if doc_len == 0 {
            let ghost m1 = self.postings_map();
            let ghost evs = fallback_events(bytes@, doc_id);
            let ngrams = extract_ngrams_bytes(bytes);
            let field_id = SearchField::FunctionBody.as_u8();
            let mut k: usize = 0;
            proof {
                assert(evs.take(0) =~= Seq::<(u64, PostingEntry)>::empty());
            }
            while k < ngrams.len()
                invariant
                    k <= ngrams@.len(),
                    self.wf(),
                    weighted_view(ngrams@) == index_ngrams(bytes@),
                    evs == fallback_events(bytes@, doc_id),
                    evs.len() == ngrams@.len(),
                    field_id == field_code(SearchField::FunctionBody),
                    self.postings_map() == map_add_all(m1, evs.take(k as int)),
                    self.file_table == table,
                    self.file_mtimes() == old_mtimes.push((path@, mtime)),
                    self.doc_lengths == old(self).doc_lengths,
                    self.repo_root == old(self).repo_root,
                decreases ngrams@.len() - k,
            {
                let (ng, w) = ngrams[k];
                let entry = PostingEntry { doc_id, field_id, position: 0, tf: 1 };
                assert(weighted_view(ngrams@)[k as int] == (ng@, w as int));
                assert(evs[k as int] == (ng@, entry));
                self.postings.add(ng, entry);
                assert(evs.take(k + 1).drop_last() =~= evs.take(k as int));
                k = k + 1;
            }
            assert(evs.take(ngrams@.len() as int) =~= evs);
            doc_len = doc_len_add(0, ngrams.len());
            proof {
                assert(regions_events(bytes@, regs, doc_id).len() == 0);
                assert(regions_events(bytes@, regs, doc_id) =~= Seq::<(u64, PostingEntry)>::empty());
                assert(map_add_all(m0, Seq::<(u64, PostingEntry)>::empty()) == m0);
            }
        }
        self.doc_lengths.push(doc_len);
        Ok(())
    }

    /// Finish the build: the posting lists in increasing hash order with
    /// the header announcing their number and the number of files, stamped
    /// `created_at`.
    pub fn finish(self, created_at: u64) -> (r: BuiltIndex)
        requires
            self.wf(),
        ensures
            keys_increasing(index_model(r.entries@)),
            lists_map(index_model(r.entries@)) == self.postings_map(),
            r.header.magic@ == magic_bytes(),
            r.header.version == INDEX_FORMAT_VERSION,
            r.header.ngram_count == r.entries@.len(),
            r.header.file_count == self.file_keys().len(),
            r.header.created_at == created_at,
            r.file_table.wf(),
            r.file_table.keys() == self.file_keys(),
            r.file_table.path_bytes() == self.file_paths(),
            r.doc_lengths@ == self.doc_lengths(),
            r.file_mtimes@.map_values(|e: (String, u64)| (e.0@, e.1)) == self.file_mtimes(),
            r.repo_root@ == self.root(),
    {
        let file_count = self.file_table.len() as u64;
        let entries = self.postings.into_sorted();
        let ngram_count = entries.len() as u64;
        let header = IndexHeader {
            magic: index_magic(),
            version: INDEX_FORMAT_VERSION,
            ngram_count,
            file_count,
            created_at,
        };
        BuiltIndex {
            entries,
            header,
            file_table: self.file_table,
            doc_lengths: self.doc_lengths,
            file_mtimes: self.file_mtimes,
            repo_root: self.repo_root,
        }
    }
}

/// Adding two runs of postings one after the other is adding their
/// concatenation.
pub proof fn lemma_map_add_all_append(
    m: Map<u64, Seq<PostingEntry>>,
    a: Seq<(u64, PostingEntry)>,
    b: Seq<(u64, PostingEntry)>,
)
    ensures
        map_add_all(map_add_all(m, a), b) == map_add_all(m, a + b),
    decreases b.len(),
{
    if b.len() == 0 {
        assert(a + b =~= a);
    } else {
        lemma_map_add_all_append(m, a, b.drop_last());
        assert((a + b).drop_last() =~= a + b.drop_last());
        assert((a + b).last() == b.last());
    }
}

/// Reading back a finished build: when the lists the build hands over
/// encode without failure into files within the size limits, the record at
/// each position carries that list's hash and reads back the valid
/// postings the build accumulated for the hash.
pub proof fn lemma_built_index_reads_back(
    h: IndexHeader,
    es: Seq<(u64, Seq<PostingEntry>)>,
    i: int,
)
    requires
        keys_increasing(es),
        h.magic@ == magic_bytes(),
        h.version == INDEX_FORMAT_VERSION,
        h.ngram_count == es.len(),
        build_failure_from(es, 0) is None,
        POSTING_ENTRY_SIZE * postings_before(es, es.len() as int) <= MAX_SKPOST_BYTES,
        INDEX_HEADER_SIZE + INDEX_ENTRY_SIZE * es.len() <= usize::MAX,
        0 <= i < es.len(),
    ensures
        index_accepts(lookup_file_bytes(h, es), all_postings_bytes(es)),
        table_entry(lookup_file_bytes(h, es), i).ngram_hash == es[i].0,
        lists_map(es).contains_key(es[i].0),
        read_postings(all_postings_bytes(es), table_entry(lookup_file_bytes(h, es), i), h.file_count)
            == lists_map(es)[es[i].0].filter(|p: PostingEntry| posting_valid(p, h.file_count)),
{
    lemma_written_index_reads_back(h, es);
    assert(table_entry(lookup_file_bytes(h, es), i).ngram_hash == es[i].0);
    crate::lexical::postings::lemma_increasing_distinct(es);
    crate::lexical::postings::lemma_lists_map_at(es, i);
}

} // verus!
