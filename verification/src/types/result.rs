//! Result-side value types: byte spans, line ranges and index statistics.
use vstd::prelude::*;

verus! {

/// Half-open byte span `[start, end)` within a source file.
#[derive(Debug, Clone, Copy, PartialEq, Eq, Structural)]
pub struct MatchSpan {
    /// Start byte offset (inclusive).
    pub start: u32,
    /// End byte offset (exclusive).
    pub end: u32,
}

impl MatchSpan {
    /// Create a span from start and end byte offsets.
    pub fn new(start: u32, end: u32) -> (r: Self)
        ensures
            r.start == start,
            r.end == end,
    {
        MatchSpan { start, end }
    }

    /// Length of the span in bytes; an inverted span has length zero.
    pub fn len(self) -> (r: u32)
        ensures
            r == (if self.end >= self.start { self.end - self.start } else { 0 }),
    {
        self.end.saturating_sub(self.start)
    }

    /// Whether the span covers no bytes.
    pub fn is_empty(self) -> (r: bool)
        ensures
            r == (self.end <= self.start),
    {
        self.len() == 0
    }
}

/// 1-indexed, inclusive line range within a source file (not validated).
#[derive(Debug, Clone, Copy, PartialEq, Eq, Structural)]
pub struct LineRange {
    /// First line (1-indexed, inclusive).
    pub start: u32,
    /// Last line (1-indexed, inclusive).
    pub end: u32,
}

impl LineRange {
    /// Create a line range from start and end line numbers.
    pub fn new(start: u32, end: u32) -> (r: Self)
        ensures
            r.start == start,
            r.end == end,
    {
        LineRange { start, end }
    }
}

/// Runtime statistics for a search index.
#[derive(Debug, Clone, Copy, PartialEq, Eq, Structural)]
pub struct IndexStats {
    /// Total number of files indexed.
    pub file_count: u64,
    /// Total number of n-grams stored in the index.
    pub total_ngrams: u64,
    /// On-disk size of the index in bytes.
    pub index_size_bytes: u64,
    /// Unix timestamp (seconds) of the last index update.
    pub last_updated: u64,
    /// Serialization format version.
    pub format_version: u32,
}

} // verus!
