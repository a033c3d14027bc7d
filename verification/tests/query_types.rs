//! Query builder, temporal flags, spans and line ranges.

use rskim_search::types::query::DEFAULT_LIMIT;
use rskim_search::{LineRange, MatchSpan, SearchField, SearchQuery, TemporalFlags};

#[test]
fn search_query_new_defaults() {
    let q = SearchQuery::new();
    assert_eq!(q.text_query, None);
    assert_eq!(q.ast_pattern, None);
    assert_eq!(q.limit, 50);
    assert_eq!(q.offset, 0);
    assert!(!q.temporal_flags.blast_radius);
    assert!(!q.temporal_flags.hot);
    assert!(!q.temporal_flags.cold);
    assert!(!q.temporal_flags.risky);
}

#[test]
fn search_query_text_convenience() {
    let q = SearchQuery::text("parse_file");
    assert_eq!(q.text_query, Some("parse_file".to_string()));
    assert_eq!(q.limit, 50);
    assert_eq!(q.offset, 0);
    assert_eq!(q.ast_pattern, None);
}

#[test]
fn temporal_flags_default_all_false() {
    let flags = TemporalFlags::default();
    assert!(!flags.blast_radius);
    assert!(!flags.hot);
    assert!(!flags.cold);
    assert!(!flags.risky);
}

#[test]
fn search_query_builder_chain() {
    let flags = TemporalFlags { hot: true, ..Default::default() };
    let q = SearchQuery::new()
        .with_text("bar")
        .with_limit(10)
        .with_offset(5)
        .with_ast_pattern("fn _()")
        .with_temporal_flags(flags);

    assert_eq!(q.text_query, Some("bar".to_string()));
    assert_eq!(q.limit, 10);
    assert_eq!(q.offset, 5);
    assert_eq!(q.ast_pattern, Some("fn _()".to_string()));
    assert!(q.temporal_flags.hot);
    assert!(!q.temporal_flags.blast_radius);
}

#[test]
fn test_match_span_len_and_empty() {
    let span = MatchSpan::new(10, 20);
    assert_eq!(span.len(), 10);
    assert!(!span.is_empty());

    let zero = MatchSpan::new(5, 5);
    assert_eq!(zero.len(), 0);
    assert!(zero.is_empty());

    let inverted = MatchSpan::new(20, 10);
    assert_eq!(inverted.len(), 0);
    assert!(inverted.is_empty());
}

#[test]
fn test_line_range_construction() {
    let r = LineRange::new(1, 5);
    assert_eq!(r.start, 1);
    assert_eq!(r.end, 5);
}

#[test]
fn default_limit_is_fifty() {
    assert_eq!(DEFAULT_LIMIT, 50);
}

#[test]
fn field_codes_are_stable_and_roundtrip() {
    let all = SearchField::all();
    assert_eq!(all.len(), 7);
    for (i, field) in all.iter().enumerate() {
        assert_eq!(field.as_u8() as usize, i);
        assert_eq!(SearchField::from_u8(i as u8), Some(*field));
    }
    assert_eq!(SearchField::TypeDefinition.as_u8(), 0);
    assert_eq!(SearchField::StringLiteral.as_u8(), 6);
    assert_eq!(SearchField::from_u8(7), None);
    assert_eq!(SearchField::from_u8(255), None);
}
