//! Markdown line classification.

use rskim_search::fields::markdown_fields::{
    classify_markdown_fields, contains_markdown_link, is_heading,
};
use rskim_search::fields::newline_len;
use rskim_search::SearchField;

#[test]
fn empty_source_is_empty() {
    let result = classify_markdown_fields("").expect("should succeed");
    assert!(result.is_empty());
}

#[test]
fn blank_lines_only_is_empty() {
    let result = classify_markdown_fields("\n\n\n").expect("should succeed");
    assert!(result.is_empty());
}

#[test]
fn h1_is_type_definition() {
    let source = "# Hello World\n";
    let result = classify_markdown_fields(source).expect("should succeed");
    assert_eq!(result.len(), 1);
    assert_eq!(result[0].1, SearchField::TypeDefinition);
}

#[test]
fn h2_is_type_definition() {
    let source = "## Section\n";
    let result = classify_markdown_fields(source).expect("should succeed");
    assert_eq!(result[0].1, SearchField::TypeDefinition);
}

#[test]
fn h3_is_type_definition() {
    let source = "### Subsection\n";
    let result = classify_markdown_fields(source).expect("should succeed");
    assert_eq!(result[0].1, SearchField::TypeDefinition);
}

#[test]
fn h4_is_not_type_definition() {
    let source = "#### Deep\n";
    let result = classify_markdown_fields(source).expect("should succeed");
    assert_ne!(result[0].1, SearchField::TypeDefinition);
}

#[test]
fn prose_is_comment() {
    let source = "This is ordinary prose.\n";
    let result = classify_markdown_fields(source).expect("should succeed");
    assert_eq!(result[0].1, SearchField::Comment);
}

#[test]
fn code_block_is_function_body() {
    let source = "```rust\nfn main() {}\n```\n";
    let result = classify_markdown_fields(source).expect("should succeed");
    for (_, field) in &result {
        assert_eq!(
            *field,
            SearchField::FunctionBody,
            "all code block lines should be FunctionBody"
        );
    }
}

#[test]
fn link_line_is_import_export() {
    let source = "See [docs](https://example.com) for more.\n";
    let result = classify_markdown_fields(source).expect("should succeed");
    assert_eq!(result[0].1, SearchField::ImportExport);
}

#[test]
fn mixed_content_classifies_correctly() {
    let source = "# Title\nSome prose.\n[link](http://x.com)\n```\ncode\n```\n";
    let result = classify_markdown_fields(source).expect("should succeed");

    let fields: Vec<SearchField> = result.iter().map(|(_, f)| *f).collect();

    assert!(fields.contains(&SearchField::TypeDefinition));
    assert!(fields.contains(&SearchField::Comment));
    assert!(fields.contains(&SearchField::ImportExport));
    assert!(fields.contains(&SearchField::FunctionBody));
}

#[test]
fn crlf_byte_ranges_within_bounds() {
    let source = "# Title\r\nProse line.\r\n";
    let result = classify_markdown_fields(source).expect("should succeed");
    assert!(!result.is_empty(), "should classify CRLF markdown");
    for (range, _) in &result {
        assert!(
            range.end <= source.len(),
            "CRLF range {:?} out of bounds for source len {}",
            range,
            source.len()
        );
    }
}

#[test]
fn byte_ranges_are_within_source_bounds() {
    let source = "# Title\nProse line.\n";
    let result = classify_markdown_fields(source).expect("should succeed");
    for (range, _) in &result {
        assert!(
            range.end <= source.len(),
            "range {:?} out of bounds for source len {}",
            range,
            source.len()
        );
    }
}

// Exact regions, fence lines included in the code block.

#[test]
fn mixed_content_exact_regions() {
    let source = "# Title\nSome prose.\n[link](http://x.com)\n```\ncode\n```\n";
    let result = classify_markdown_fields(source).expect("should succeed");
    let got: Vec<(usize, usize, SearchField)> =
        result.iter().map(|(r, f)| (r.start, r.end, *f)).collect();
    assert_eq!(
        got,
        vec![
            (0, 7, SearchField::TypeDefinition),
            (8, 19, SearchField::Comment),
            (20, 40, SearchField::ImportExport),
            (41, 44, SearchField::FunctionBody),
            (45, 49, SearchField::FunctionBody),
            (50, 53, SearchField::FunctionBody),
        ]
    );
}

#[test]
fn crlf_regions_exclude_the_carriage_return() {
    let source = "# Title\r\nProse line.\r\n";
    let result = classify_markdown_fields(source).expect("should succeed");
    let got: Vec<(usize, usize)> = result.iter().map(|(r, _)| (r.start, r.end)).collect();
    assert_eq!(got, vec![(0, 7), (9, 20)]);
}

#[test]
fn heading_needs_a_space_after_the_hashes() {
    assert!(is_heading(b"# Title"));
    assert!(is_heading(b"### Title"));
    assert!(!is_heading(b"#Title"));
    assert!(!is_heading(b"#### Title"));
}

#[test]
fn link_detection_needs_bracket_then_paren() {
    assert!(contains_markdown_link(b"see [a](b)"));
    assert!(!contains_markdown_link(b"see [a] (b)"));
    assert!(!contains_markdown_link(b"no link here"));
}

#[test]
fn newline_width_of_lf_crlf_and_end() {
    assert_eq!(newline_len("a\nb", 1), 1);
    assert_eq!(newline_len("a\r\nb", 1), 2);
    assert_eq!(newline_len("a\rb", 1), 1);
    assert_eq!(newline_len("ab", 2), 0);
}
