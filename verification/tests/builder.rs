//! Index building: skipping, registration, postings per region, fallback,
//! document lengths, and the finished sorted lists.

use std::ops::Range;

use rskim_search::lexical::builder::{count_lines, is_skipped, LexicalLayerBuilder};
use rskim_search::lexical::index_format::reader::IndexReader;
use rskim_search::lexical::index_format::writer::encode_index;
use rskim_search::lexical::ngram::extract_ngrams;
use rskim_search::lexical::{Ngram, PostingEntry};
use rskim_search::types::error::{QueryError, SearchError};
use rskim_search::SearchField;

fn regions(v: &[(usize, usize, SearchField)]) -> Vec<(Range<usize>, SearchField)> {
    v.iter().map(|&(s, e, f)| (s..e, f)).collect()
}

#[test]
fn new_builder_is_empty() {
    let builder = LexicalLayerBuilder::new("/repo".to_string());
    let built = builder.finish(0);
    assert!(built.file_table.is_empty());
    assert!(built.entries.is_empty());
    assert!(built.doc_lengths.is_empty());
    assert_eq!(built.header.ngram_count, 0);
    assert_eq!(built.header.file_count, 0);
}

#[test]
fn line_counts_follow_str_lines() {
    for text in ["", "a", "a\n", "a\nb", "a\n\nb\n", "\n", "a\r\nb\r\n"] {
        assert_eq!(count_lines(text.as_bytes()), text.lines().count(), "{text:?}");
    }
}

#[test]
fn oversized_and_minified_files_are_skipped() {
    assert!(!is_skipped(b"fn main() {}\n"));
    let minified = "x".repeat(501);
    assert!(is_skipped(minified.as_bytes()));
    let long_lines = format!("{}\n{}", "x".repeat(600), "y\n".repeat(10));
    assert!(!is_skipped(long_lines.as_bytes()));
    let big = "a\n".repeat(2_500_001);
    assert!(is_skipped(big.as_bytes()));
}

#[test]
fn skipped_file_leaves_the_builder_unchanged() {
    let mut b = LexicalLayerBuilder::new("/repo".to_string());
    let minified = "x".repeat(1000);
    assert_eq!(b.add_file("min.js", &minified, &[], 1), Ok(()));
    let built = b.finish(0);
    assert!(built.file_table.is_empty());
    assert!(built.doc_lengths.is_empty());
}

#[test]
fn regions_give_postings_with_field_and_position() {
    let mut b = LexicalLayerBuilder::new("/repo".to_string());
    let content = "fn ab\n";
    let r = regions(&[(3, 5, SearchField::SymbolName)]);
    assert_eq!(b.add_file("src/a.rs", content, &r, 42), Ok(()));
    let built = b.finish(7);
    let ab = Ngram::from_bytes(b"ab");
    assert_eq!(built.entries.len(), 1);
    assert_eq!(built.entries[0].0, ab);
    assert_eq!(
        built.entries[0].1,
        vec![PostingEntry { doc_id: 0, field_id: SearchField::SymbolName.as_u8(), position: 3, tf: 2 }]
    );
    assert_eq!(built.doc_lengths, vec![1]);
    assert_eq!(built.file_mtimes, vec![("src/a.rs".to_string(), 42)]);
    assert_eq!(built.header.created_at, 7);
    assert_eq!(built.header.file_count, 1);
    assert_eq!(built.header.ngram_count, 1);
}

#[test]
fn no_region_ngrams_falls_back_to_whole_file() {
    let mut b = LexicalLayerBuilder::new("/repo".to_string());
    let content = "abc de";
    assert_eq!(b.add_file("x.txt", content, &[], 0), Ok(()));
    let built = b.finish(0);
    let expected = extract_ngrams(content).len();
    assert_eq!(built.entries.len(), expected);
    assert_eq!(built.doc_lengths, vec![expected as u32]);
    for (_, list) in &built.entries {
        assert_eq!(
            list,
            &vec![PostingEntry {
                doc_id: 0,
                field_id: SearchField::FunctionBody.as_u8(),
                position: 0,
                tf: 1
            }]
        );
    }
}

#[test]
fn entries_are_sorted_by_hash() {
    let mut b = LexicalLayerBuilder::new("/repo".to_string());
    b.add_file("a.rs", "the quick brown fox jumps", &[], 0).expect("add");
    b.add_file("b.rs", "over the lazy dog", &[], 0).expect("add");
    let built = b.finish(0);
    for w in built.entries.windows(2) {
        assert!(w[0].0.as_u64() < w[1].0.as_u64());
    }
    assert_eq!(built.header.file_count, 2);
    assert_eq!(built.doc_lengths.len(), 2);
}

#[test]
fn postings_of_two_files_accumulate_in_order() {
    let mut b = LexicalLayerBuilder::new("/repo".to_string());
    b.add_file("a.rs", "ab", &[], 0).expect("add");
    b.add_file("b.rs", "ab", &[], 0).expect("add");
    let built = b.finish(0);
    assert_eq!(built.entries.len(), 1);
    let docs: Vec<u32> = built.entries[0].1.iter().map(|p| p.doc_id).collect();
    assert_eq!(docs, vec![0, 1]);
}

#[test]
fn paths_outside_the_root_are_rejected() {
    let mut b = LexicalLayerBuilder::new("/repo".to_string());
    assert_eq!(
        b.add_file("/etc/passwd", "abc", &[], 0),
        Err(SearchError::InvalidQuery(QueryError::AbsolutePath))
    );
    assert_eq!(
        b.add_file("../secret.rs", "abc", &[], 0),
        Err(SearchError::InvalidQuery(QueryError::EscapesRoot))
    );
    let built = b.finish(0);
    assert!(built.file_table.is_empty());
    assert!(built.entries.is_empty());
}

#[test]
fn term_frequency_is_the_ngram_weight() {
    let mut b = LexicalLayerBuilder::new("/repo".to_string());
    let content = "aaaa";
    let r = regions(&[(0, 4, SearchField::FunctionBody)]);
    b.add_file("a.rs", content, &r, 0).expect("add");
    let built = b.finish(0);
    assert_eq!(built.entries[0].1[0].tf, 5);
}

#[test]
fn built_index_encodes_and_reads_back() {
    let mut b = LexicalLayerBuilder::new("/repo".to_string());
    b.add_file("a.rs", "fn main", &[], 0).expect("add");
    b.add_file("b.rs", "fn test", &[], 0).expect("add");
    let built = b.finish(1);
    let encoded = encode_index(&built.entries, &built.header).expect("encode");
    let reader = IndexReader::from_bytes(encoded.lookup, encoded.postings).expect("open");
    assert_eq!(reader.validate(), Ok(()));
    let found = reader.lookup(Ngram::from_bytes(b"fn")).expect("present");
    let docs: Vec<u32> = found.iter().map(|p| p.doc_id).collect();
    assert_eq!(docs, vec![0, 1]);
}

// Whole files through the builder. Classification happens before a file
// reaches the builder; a file handed over with no classified regions is
// indexed whole, as when its classifier finds nothing.

const AUTH_HANDLER_RS: &str = r##"use std::collections::HashMap;

/// Handler for authentication and token validation.
pub struct AuthHandler {
    secret_key: String,
    token_cache: HashMap<String, TokenInfo>,
}

/// Information about a validated token.
pub struct TokenInfo {
    pub user_id: String,
    pub expires_at: u64,
    pub scopes: Vec<String>,
}

/// Errors that can occur during authentication.
pub enum AuthError {
    InvalidToken,
    ExpiredToken,
    InsufficientScope(String),
}

impl AuthHandler {
    pub fn new(secret_key: String) -> Self {
        Self {
            secret_key,
            token_cache: HashMap::new(),
        }
    }

    /// Validate a bearer token and return its claims.
    pub fn validate_token(&self, token: &str) -> Result<&TokenInfo, AuthError> {
        self.token_cache
            .get(token)
            .ok_or(AuthError::InvalidToken)
    }

    /// Check if a token has the required scope.
    pub fn check_scope(&self, token: &str, required: &str) -> Result<(), AuthError> {
        let info = self.validate_token(token)?;
        if info.scopes.iter().any(|s| s == required) {
            Ok(())
        } else {
            Err(AuthError::InsufficientScope(required.to_string()))
        }
    }
}
"##;

#[test]
fn empty_builder_produces_valid_empty_index() {
    let builder = LexicalLayerBuilder::new("/workspace".to_string());
    let built = builder.finish(0);
    assert_eq!(built.header.file_count, 0, "empty index should have 0 files");
    assert_eq!(built.header.ngram_count, 0, "empty index should have 0 ngrams");
}

#[test]
fn single_rust_file_indexes_correctly() {
    let mut builder = LexicalLayerBuilder::new("/workspace".to_string());
    builder
        .add_file("tests/fixtures/search/auth_handler.rs", AUTH_HANDLER_RS, &[], 0)
        .expect("add_file");
    let built = builder.finish(0);
    assert_eq!(built.header.file_count, 1);
    assert!(built.header.ngram_count > 0);
}

#[test]
fn minified_file_is_skipped() {
    let minified: String = "x".repeat(1000);
    let mut builder = LexicalLayerBuilder::new("/workspace".to_string());
    builder.add_file("minified.js", &minified, &[], 0).expect("add_file should not error");
    let built = builder.finish(0);
    assert_eq!(built.header.file_count, 0, "minified file should be skipped");
}

#[test]
fn large_file_is_skipped() {
    let large: String = "a ".repeat(3_000_000);
    let mut builder = LexicalLayerBuilder::new("/workspace".to_string());
    builder.add_file("huge.rs", &large, &[], 0).expect("add_file should not error");
    let built = builder.finish(0);
    assert_eq!(built.header.file_count, 0, "large file (>5MB) should be skipped");
}

#[test]
fn built_layer_can_be_reopened() {
    let mut builder = LexicalLayerBuilder::new("/workspace".to_string());
    builder
        .add_file("tests/fixtures/search/auth_handler.rs", AUTH_HANDLER_RS, &[], 0)
        .expect("add_file");
    let built = builder.finish(0);
    let encoded = encode_index(&built.entries, &built.header).expect("build");
    let reopened = IndexReader::from_bytes(encoded.lookup, encoded.postings).expect("reopen");
    assert_eq!(reopened.header().file_count, 1, "reopened index should have 1 file");
}

#[test]
fn readding_a_registered_file_keeps_its_id() {
    let mut builder = LexicalLayerBuilder::new("/workspace".to_string());
    builder.add_file("src/lib.rs", "fn alpha() {}\n", &[], 1).expect("first add");
    builder.add_file("src/main.rs", "fn beta() {}\n", &[], 2).expect("second add");
    builder.add_file("./src/lib.rs", "fn alpha() {}\n", &[], 3).expect("re-add");
    let built = builder.finish(0);
    assert_eq!(built.header.file_count, 2);
    assert_eq!(built.file_table.len(), 2);
}
