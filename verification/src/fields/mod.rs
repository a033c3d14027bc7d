//! Field classification: mapping regions of a source file to `SearchField`s.
pub mod markdown_fields;
pub mod tree_sitter_fields;
pub mod table_facts;
pub mod tree_sitter_tables;

pub use tree_sitter_fields::for_language;

use std::ops::Range;
use vstd::prelude::*;
use vstd::string::StringSliceAdditionalSpecFns;

use crate::types::error::SearchError;
use crate::types::query::SearchField;
use markdown_fields::{classify_markdown_fields, markdown_regions, regions_view};
use tree_sitter_fields::Language;

verus! {

/// Byte width of the line separator at `end_of_line`: 2 for `\r\n`, 1 for
/// a lone `\r` or a `\n`, 0 at the end of the text or on any other byte.
pub open spec fn newline_width(s: Seq<u8>, end_of_line: int) -> int {
    if 0 <= end_of_line < s.len() && s[end_of_line] == 0x0d {
        if end_of_line + 1 < s.len() && s[end_of_line + 1] == 0x0a {
            2
        } else {
            1
        }
    } else if 0 <= end_of_line < s.len() && s[end_of_line] == 0x0a {
        1
    } else {
        0
    }
}

/// The byte width of the newline sequence that follows a line ending at
/// `end_of_line` in `source`.
pub fn newline_len(source: &str, end_of_line: usize) -> (r: usize)
    ensures
        r == newline_width(source.spec_bytes(), end_of_line as int),
{
    let bytes = source.as_bytes();
    if end_of_line < bytes.len() && bytes[end_of_line] == 0x0d {
        if end_of_line + 1 < bytes.len() && bytes[end_of_line + 1] == 0x0a {
            2
        } else {
            1
        }
    } else if end_of_line < bytes.len() && bytes[end_of_line] == 0x0a {
        1
    } else {
        0
    }
}

/// Classify the fields of a file that is not read as a syntax tree:
/// Markdown by its lines (headings, code blocks, links, prose); every other
/// language gives no regions. JSON, YAML and TOML have no classifier in this
/// library, so they give none either, and the builder indexes such files
/// whole.
pub fn classify_serde_fields(source: &str, language: Language) -> (r: Result<
    Vec<(Range<usize>, SearchField)>,
    SearchError,
>)
    ensures
        language == Language::Markdown ==> (r matches Ok(v) && regions_view(v@) == markdown_regions(
            source.spec_bytes(),
        )),
        language != Language::Markdown ==> (r matches Ok(v) && v@.len() == 0),
{
    if language == Language::Markdown {
        classify_markdown_fields(source)
    } else {
        Ok(Vec::new())
    }
}

} // verus!
