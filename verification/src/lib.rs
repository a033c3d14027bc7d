//! Search and indexing layer: a lexical n-gram index whose on-disk format,
//! lookup, tombstones and delta segments are specified and verified, with
//! the path table, field classification and command-line helpers it uses.

pub mod cmd;
pub mod fields;
mod fx_map;
pub mod lexical;
pub mod text;
pub mod types;

pub use types::error::SearchError;
pub use types::file_id::FileId;
pub use types::file_table::{FileTable, MAX_FILE_TABLE_ENTRIES};
pub use types::query::{SearchField, SearchQuery, TemporalFlags};
pub use types::result::{IndexStats, LineRange, MatchSpan};
