//! N-gram extraction: weights, borders, Unicode bytes and query selection.

use rskim_search::lexical::ngram::{extract_ngrams, extract_query_ngrams, MAX_QUERY_NGRAMS};
use rskim_search::lexical::Ngram;
use rustc_hash::FxHashMap;

#[test]
fn empty_string_returns_empty() {
    assert!(extract_ngrams("").is_empty());
}

#[test]
fn single_char_returns_empty() {
    assert!(extract_ngrams("a").is_empty());
}

#[test]
fn all_whitespace_returns_empty() {
    assert!(extract_ngrams("   \t\n  ").is_empty());
}

#[test]
fn two_char_token_produces_one_ngram() {
    let result = extract_ngrams("fn");
    assert_eq!(result.len(), 1);
    let (ng, w) = result[0];
    assert_eq!(ng, Ngram::from_bytes(b"fn"));
    assert!((w as f32 - 2.0).abs() < f32::EPSILON, "expected 2.0, got {w}");
}

#[test]
fn three_char_token_border_weighting() {
    let result = extract_ngrams("foo");
    assert_eq!(result.len(), 2);

    let map: FxHashMap<Ngram, u64> = result.into_iter().collect();
    let fo = Ngram::from_bytes(b"fo");
    let oo = Ngram::from_bytes(b"oo");

    assert!((map[&fo] as f32 - 2.0).abs() < f32::EPSILON, "fo should be 2.0 (first border)");
    assert!((map[&oo] as f32 - 2.0).abs() < f32::EPSILON, "oo should be 2.0 (last border)");
}

#[test]
fn four_char_token_interior_weight() {
    let result = extract_ngrams("abcd");
    let map: FxHashMap<Ngram, u64> = result.into_iter().collect();

    assert!((map[&Ngram::from_bytes(b"ab")] as f32 - 2.0).abs() < f32::EPSILON);
    assert!((map[&Ngram::from_bytes(b"bc")] as f32 - 1.0).abs() < f32::EPSILON);
    assert!((map[&Ngram::from_bytes(b"cd")] as f32 - 2.0).abs() < f32::EPSILON);
}

#[test]
fn repeated_ngrams_accumulate() {
    let result = extract_ngrams("ab ab");
    let map: FxHashMap<Ngram, u64> = result.into_iter().collect();
    let ab = Ngram::from_bytes(b"ab");
    assert!((map[&ab] as f32 - 4.0).abs() < f32::EPSILON, "expected 4.0, got {}", map[&ab]);
}

#[test]
fn repeated_chars_produce_single_ngram() {
    let result = extract_ngrams("aaaa");
    assert_eq!(result.len(), 1);
    let (ng, w) = result[0];
    assert_eq!(ng, Ngram::from_bytes(b"aa"));
    assert!((w as f32 - 5.0).abs() < f32::EPSILON, "expected 5.0, got {w}");
}

#[test]
fn multi_word_text_independent_border_weighting() {
    let result = extract_ngrams("fn foo");
    let map: FxHashMap<Ngram, u64> = result.into_iter().collect();

    let fn_ng = Ngram::from_bytes(b"fn");
    assert!((map[&fn_ng] as f32 - 2.0).abs() < f32::EPSILON);

    let fo = Ngram::from_bytes(b"fo");
    assert!((map[&fo] as f32 - 2.0).abs() < f32::EPSILON);
}

#[test]
fn unicode_multibyte_works_at_byte_level() {
    let result = extract_ngrams("é");
    assert_eq!(result.len(), 1);
}

#[test]
fn cjk_three_byte_chars_produce_bigrams() {
    let result = extract_ngrams("中");
    assert_eq!(result.len(), 2);
}

#[test]
fn query_empty_returns_empty() {
    assert!(extract_query_ngrams("").is_empty());
}

#[test]
fn query_single_char_returns_empty() {
    assert!(extract_query_ngrams("a").is_empty());
}

#[test]
fn query_all_whitespace_returns_empty() {
    assert!(extract_query_ngrams("   ").is_empty());
}

#[test]
fn query_two_chars_returns_one_ngram() {
    let result = extract_query_ngrams("fn");
    assert_eq!(result.len(), 1);
    assert_eq!(result[0].0, Ngram::from_bytes(b"fn"));
    assert!((result[0].1 as f32 - 1.0).abs() < f32::EPSILON);
}

#[test]
fn query_covers_all_positions() {
    let result = extract_query_ngrams("abcd");
    assert_eq!(result.len(), 3);
    for (_, w) in &result {
        assert!((*w as f32 - 1.0).abs() < f32::EPSILON);
    }
}

#[test]
fn query_no_duplicates_in_result() {
    let result = extract_query_ngrams("aabbaabb");
    let ngrams: Vec<Ngram> = result.iter().map(|(ng, _)| *ng).collect();
    let unique: std::collections::HashSet<u64> = ngrams.iter().map(|ng| ng.as_u64()).collect();
    assert_eq!(ngrams.len(), unique.len(), "duplicate ngrams in query result");
}

#[test]
fn query_respects_max_limit() {
    let long_query: String = (0..200u8).map(|b| b as char).collect();
    let result = extract_query_ngrams(&long_query);
    assert!(result.len() <= MAX_QUERY_NGRAMS, "exceeded MAX_QUERY_NGRAMS");
}

#[test]
fn ngram_query_uniform_weights() {
    let result = extract_query_ngrams("hello world");
    for (_, w) in result {
        assert!((w as f32 - 1.0).abs() < f32::EPSILON, "expected uniform 1.0, got {w}");
    }
}

#[test]
fn large_text_does_not_panic() {
    let text: String =
        "fn process_item(item: Item) -> Result<Output> { /* ... */ }\n".repeat(500);
    let result = extract_ngrams(&text);
    assert!(!result.is_empty());
}

// Exact values fixed by the specification of extraction.

#[test]
fn query_ngrams_are_first_occurrences_in_order() {
    let result = extract_query_ngrams("  abab  ");
    let hashes: Vec<u64> = result.iter().map(|(ng, _)| ng.as_u64()).collect();
    assert_eq!(
        hashes,
        vec![Ngram::from_bytes(b"ab").as_u64(), Ngram::from_bytes(b"ba").as_u64()]
    );
}

#[test]
fn query_keeps_only_the_first_thirty_two_distinct_bigrams() {
    let text: String = (0u8..40).map(|i| (b'A' + (i % 26)) as char).collect::<String>()
        + "0123456789";
    let result = extract_query_ngrams(&text);
    assert_eq!(result.len(), MAX_QUERY_NGRAMS);
    assert_eq!(result[0].0, Ngram::from_bytes(&text.as_bytes()[0..2]));
}

#[test]
fn index_ngrams_keep_first_occurrence_order() {
    let result = extract_ngrams("xy ab xy");
    let hashes: Vec<u64> = result.iter().map(|(ng, _)| ng.as_u64()).collect();
    assert_eq!(
        hashes,
        vec![Ngram::from_bytes(b"xy").as_u64(), Ngram::from_bytes(b"ab").as_u64()]
    );
    assert_eq!(result[0].1, 4);
}
