//! Integration tests for n-gram extraction, index time and query time.

use rskim_search::lexical::ngram::{extract_ngrams, extract_query_ngrams};
use rskim_search::lexical::Ngram;
use rustc_hash::FxHashMap;

/// Collect `(Ngram, weight)` pairs into a map, summing duplicate weights.
fn into_map(pairs: Vec<(Ngram, u64)>) -> FxHashMap<Ngram, f32> {
    let mut map = FxHashMap::default();
    for (ng, w) in pairs {
        *map.entry(ng).or_insert(0.0) += w as f32;
    }
    map
}

fn ng(bytes: &[u8]) -> Ngram {
    Ngram::from_bytes(bytes)
}

#[test]
fn empty_string_is_empty() {
    assert!(extract_ngrams("").is_empty());
}

#[test]
fn single_char_is_empty() {
    assert!(extract_ngrams("x").is_empty());
}

#[test]
fn all_whitespace_is_empty() {
    assert!(extract_ngrams("  \t\n  ").is_empty());
}

#[test]
fn two_char_token_single_ngram_with_border_weight() {
    let result = extract_ngrams("if");
    assert_eq!(result.len(), 1);
    let (ngram, w) = result[0];
    assert_eq!(ngram, ng(b"if"));
    assert!(
        (w as f32 - 2.0).abs() < f32::EPSILON,
        "2-char border weight should be 2.0, got {w}"
    );
}

#[test]
fn three_char_token_both_borders() {
    let map = into_map(extract_ngrams("let"));
    assert_eq!(map.len(), 2);
    assert!((map[&ng(b"le")] - 2.0).abs() < f32::EPSILON);
    assert!((map[&ng(b"et")] - 2.0).abs() < f32::EPSILON);
}

#[test]
fn five_char_token_interior_is_one() {
    let map = into_map(extract_ngrams("hello"));
    assert_eq!(map.len(), 4);
    assert!((map[&ng(b"he")] - 2.0).abs() < f32::EPSILON, "he should be border 2.0");
    assert!((map[&ng(b"el")] - 1.0).abs() < f32::EPSILON, "el should be interior 1.0");
    assert!((map[&ng(b"ll")] - 1.0).abs() < f32::EPSILON, "ll should be interior 1.0");
    assert!((map[&ng(b"lo")] - 2.0).abs() < f32::EPSILON, "lo should be border 2.0");
}

#[test]
fn repeated_ngram_accumulates_weight() {
    let map = into_map(extract_ngrams("fn fn fn"));
    let expected = 2.0 * 3.0;
    assert!(
        (map[&ng(b"fn")] - expected).abs() < f32::EPSILON,
        "fn weight should be {expected}, got {}",
        map[&ng(b"fn")]
    );
}

#[test]
fn all_same_char_single_ngram_accumulates() {
    let map = into_map(extract_ngrams("aaaa"));
    assert_eq!(map.len(), 1);
    assert!((map[&ng(b"aa")] - 5.0).abs() < f32::EPSILON);
}

#[test]
fn multi_token_independent_borders() {
    let map = into_map(extract_ngrams("ab cd"));
    assert!((map[&ng(b"ab")] - 2.0).abs() < f32::EPSILON);
    assert!((map[&ng(b"cd")] - 2.0).abs() < f32::EPSILON);
}

#[test]
fn single_char_tokens_skipped() {
    assert!(extract_ngrams("a b c").is_empty());
}

#[test]
fn unicode_two_byte_char_produces_bigram() {
    let result = extract_ngrams("é");
    assert_eq!(result.len(), 1);
}

#[test]
fn cjk_three_byte_char_produces_two_bigrams() {
    let result = extract_ngrams("中");
    assert_eq!(result.len(), 2);
}

#[test]
fn four_byte_cjk_char_produces_three_bigrams() {
    let result = extract_ngrams("𠀀");
    assert_eq!(result.len(), 3);
}

#[test]
fn mixed_ascii_unicode_text() {
    let result = extract_ngrams("fn 中文 rust");
    assert!(!result.is_empty());
}

#[test]
fn large_input_is_linear_and_no_panic() {
    let line = "fn transform(node: &Node, source: &str) -> Option<String> { None }\n";
    let text: String = line.repeat(500);
    assert_eq!(text.len(), line.len() * 500);

    let result = extract_ngrams(&text);
    assert!(!result.is_empty(), "large input produced no ngrams");
}

#[test]
fn query_empty_is_empty() {
    assert!(extract_query_ngrams("").is_empty());
}

#[test]
fn query_single_char_is_empty() {
    assert!(extract_query_ngrams("z").is_empty());
}

#[test]
fn query_all_whitespace_is_empty() {
    assert!(extract_query_ngrams("   \t").is_empty());
}

#[test]
fn query_two_chars_returns_one() {
    let result = extract_query_ngrams("fn");
    assert_eq!(result.len(), 1);
    assert_eq!(result[0].0, ng(b"fn"));
    assert!((result[0].1 as f32 - 1.0).abs() < f32::EPSILON);
}

#[test]
fn ngram_extraction_query_uniform_weights() {
    let result = extract_query_ngrams("hello world");
    assert!(!result.is_empty());
    for (_, w) in result {
        assert!(
            (w as f32 - 1.0).abs() < f32::EPSILON,
            "query weight must be 1.0, got {w}"
        );
    }
}

#[test]
fn query_no_duplicate_ngrams() {
    let result = extract_query_ngrams("aaaaaa");
    let ngrams: Vec<Ngram> = result.iter().map(|(ng, _)| *ng).collect();
    let unique_count = ngrams
        .iter()
        .map(|ng| ng.as_u64())
        .collect::<std::collections::HashSet<_>>()
        .len();
    assert_eq!(ngrams.len(), unique_count, "query result contains duplicate ngrams");
}

#[test]
fn query_max_limit_not_exceeded() {
    let long: String = "abcdefghijklmnopqrstuvwxyz0123456789"
        .chars()
        .cycle()
        .take(200)
        .collect();
    let result = extract_query_ngrams(&long);
    assert!(result.len() <= 32, "exceeded MAX_QUERY_NGRAMS: got {}", result.len());
}

#[test]
fn query_covers_short_text_completely() {
    let result = extract_query_ngrams("abcd");
    assert!(!result.is_empty());
}

#[test]
fn query_unicode_does_not_panic() {
    let result = extract_query_ngrams("中文搜索");
    let _ = result;
}

#[test]
fn query_ngrams_for_single_word_are_subset_of_index_ngrams() {
    let token = "AstVisitor";
    let index_set: std::collections::HashSet<u64> = extract_ngrams(token)
        .iter()
        .map(|(ng, _)| ng.as_u64())
        .collect();
    let query_set: std::collections::HashSet<u64> = extract_query_ngrams(token)
        .iter()
        .map(|(ng, _)| ng.as_u64())
        .collect();

    for ng_hash in &query_set {
        assert!(
            index_set.contains(ng_hash),
            "query ngram {ng_hash} not found in index ngrams for token: {token:?}"
        );
    }
}
