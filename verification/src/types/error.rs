//! Structured error kinds for on-disk index validation and index building.
//!
//! Each variant carries the values that describe what was found, so that a
//! caller can render the message it needs and attach the file's path.
use vstd::prelude::*;

verus! {

/// Why an on-disk index file was rejected as corrupted.
#[derive(Debug, Clone, Copy, PartialEq, Eq)]
pub enum CorruptionKind {
    /// The lookup file is shorter than the header.
    HeaderTooSmall { len: usize },
    /// The header's magic bytes are not `b"SKIM"`.
    BadMagic { magic: [u8; 4] },
    /// The header's format version is not the supported one.
    UnsupportedVersion { version: u32 },
    /// `ngram_count` does not fit the platform's `usize`.
    NgramCountTooLarge { count: u64 },
    /// The lookup file size computed from `ngram_count` overflows `usize`.
    TableSizeOverflow { ngrams: usize },
    /// The lookup file's size is not header + `ngram_count` entries.
    IndexSizeMismatch { expected: usize, ngram_count: usize, actual: usize },
    /// The postings file exceeds the maximum allowed size.
    PostingsTooLarge { size: usize },
    /// The postings file's size is not a multiple of the posting size.
    PostingsMisaligned { size: usize },
    /// A lookup entry's posting byte length overflows `usize`.
    PostingLengthOverflow { entry: usize },
    /// A lookup entry's posting range end overflows `usize`.
    PostingRangeOverflow { entry: usize },
    /// A lookup entry's posting range ends past the postings file.
    PostingRangeOutOfBounds { entry: usize, start: usize, end: usize, size: usize },
    /// The delta file exceeds the maximum allowed size.
    DeltaTooLarge { size: usize },
    /// The tombstone file exceeds the maximum allowed size.
    TombstonesTooLarge { size: usize },
    /// The tombstone file's size is not a multiple of four.
    TombstonesMisaligned { size: usize },
}

/// Why an index could not be built.
#[derive(Debug, Clone, Copy, PartialEq, Eq, Structural)]
pub enum BuildError {
    /// The posting list of this n-gram hash has more than `u32::MAX` entries.
    PostingListTooLong { ngram: u64 },
    /// The total size of the postings file overflows `u64`.
    PostingsSizeOverflow,
    /// The file identifier does not fit the 32-bit document id of a posting.
    DocIdOverflow,
}

/// Errors of the search library's own operations.
#[derive(Debug, Clone, Copy, PartialEq, Eq)]
pub enum SearchError {
    /// The index could not be built.
    IndexBuildError(BuildError),
    /// A path or query was rejected.
    InvalidQuery(QueryError),
    /// An index file is corrupted or has an incompatible format.
    CorruptedIndex(CorruptionKind),
}

/// Why a path or query was rejected.
#[derive(Debug, Clone, Copy, PartialEq, Eq, Structural)]
pub enum QueryError {
    /// The path is absolute and cannot be confined to the project root.
    AbsolutePath,
    /// The path leaves the project root.
    EscapesRoot,
}

} // verus!
