//! Syntax-node field classification.

use rskim_search::fields::for_language;
use rskim_search::fields::tree_sitter_fields::{Language, SyntaxNode, TreeSitterClassifier};
use rskim_search::SearchField;

fn node(kind: &str, parent: Option<&str>, start: usize, end: usize, depth: u32) -> SyntaxNode {
    SyntaxNode {
        kind: kind.to_string(),
        parent_kind: parent.map(|p| p.to_string()),
        start,
        end,
        depth,
    }
}

#[test]
fn for_language_returns_none_for_json() {
    assert!(for_language(Language::Json).is_none());
}

#[test]
fn for_language_returns_none_for_yaml() {
    assert!(for_language(Language::Yaml).is_none());
}

#[test]
fn for_language_returns_none_for_toml() {
    assert!(for_language(Language::Toml).is_none());
}

#[test]
fn for_language_returns_none_for_markdown() {
    assert!(for_language(Language::Markdown).is_none());
}

#[test]
fn for_language_returns_some_for_all_tree_sitter_languages() {
    for lang in [
        Language::TypeScript,
        Language::JavaScript,
        Language::Python,
        Language::Rust,
        Language::Go,
        Language::Java,
        Language::C,
        Language::Cpp,
        Language::CSharp,
        Language::Ruby,
        Language::Kotlin,
        Language::Swift,
        Language::Sql,
    ] {
        assert!(for_language(lang).is_some());
    }
}

#[test]
fn javascript_shares_typescript_tables() {
    assert_eq!(
        TreeSitterClassifier::for_language(Language::JavaScript),
        TreeSitterClassifier::for_language(Language::TypeScript)
    );
}

#[test]
fn rust_container_nodes_map_directly() {
    let c = for_language(Language::Rust).expect("rust");
    assert_eq!(c.classify_node("struct_item", None), Some(SearchField::TypeDefinition));
    assert_eq!(c.classify_node("function_item", None), Some(SearchField::FunctionSignature));
    assert_eq!(c.classify_node("use_declaration", None), Some(SearchField::ImportExport));
    assert_eq!(c.classify_node("binary_expression", None), None);
}

#[test]
fn identifiers_need_a_declaration_parent() {
    let c = for_language(Language::TypeScript).expect("ts");
    assert_eq!(
        c.classify_node("identifier", Some("function_declaration")),
        Some(SearchField::SymbolName)
    );
    assert_eq!(
        c.classify_node("identifier", Some("import_specifier")),
        Some(SearchField::ImportExport)
    );
    assert_eq!(c.classify_node("identifier", Some("call_expression")), None);
    assert_eq!(c.classify_node("identifier", None), None);
    assert_eq!(c.classify_node("number", Some("function_declaration")), None);
}

#[test]
fn python_tables() {
    let c = for_language(Language::Python).expect("py");
    assert_eq!(c.classify_node("class_definition", None), Some(SearchField::TypeDefinition));
    assert_eq!(c.classify_node("comment", None), Some(SearchField::Comment));
    assert_eq!(c.classify_node("identifier", Some("assignment")), Some(SearchField::SymbolName));
}

#[test]
fn nodes_are_classified_in_order_and_depth_limited() {
    let c = for_language(Language::Rust).expect("rust");
    let nodes = vec![
        node("source_file", None, 0, 40, 0),
        node("function_item", Some("source_file"), 0, 40, 1),
        node("identifier", Some("function_item"), 3, 7, 2),
        node("block", Some("function_item"), 10, 40, 2),
        node("string_literal", Some("block"), 12, 20, 128),
    ];
    let regions = c.classify_nodes(&nodes);
    let got: Vec<(usize, usize, SearchField)> =
        regions.iter().map(|(r, f)| (r.start, r.end, *f)).collect();
    assert_eq!(
        got,
        vec![
            (0, 40, SearchField::FunctionSignature),
            (3, 7, SearchField::SymbolName),
            (10, 40, SearchField::FunctionBody),
        ]
    );
}

#[test]
fn serde_languages_return_none() {
    for lang in [Language::Json, Language::Yaml, Language::Toml, Language::Markdown] {
        assert!(TreeSitterClassifier::for_language(lang).is_none(), "Expected None for {lang:?}");
    }
}

#[test]
fn tree_sitter_languages_return_some() {
    let langs = [
        Language::TypeScript,
        Language::JavaScript,
        Language::Python,
        Language::Rust,
        Language::Go,
        Language::Java,
        Language::C,
        Language::Cpp,
        Language::CSharp,
        Language::Ruby,
        Language::Kotlin,
        Language::Swift,
        Language::Sql,
    ];
    for lang in langs {
        assert!(TreeSitterClassifier::for_language(lang).is_some(), "Expected Some for {lang:?}");
    }
}

#[test]
fn rust_field_map_contains_expected_entries() {
    let classifier = TreeSitterClassifier::for_language(Language::Rust).expect("Rust classifier must exist");
    assert_eq!(classifier.classify_node("struct_item", None), Some(SearchField::TypeDefinition));
    assert_eq!(classifier.classify_node("function_item", None), Some(SearchField::FunctionSignature));
    assert_eq!(classifier.classify_node("use_declaration", None), Some(SearchField::ImportExport));
}

#[test]
fn typescript_declaration_parents_contains_expected_entries() {
    let classifier =
        TreeSitterClassifier::for_language(Language::TypeScript).expect("TypeScript classifier must exist");
    assert_eq!(
        classifier.classify_node("identifier", Some("function_declaration")),
        Some(SearchField::SymbolName)
    );
    assert_eq!(
        classifier.classify_node("identifier", Some("import_specifier")),
        Some(SearchField::ImportExport)
    );
}

#[test]
fn same_language_returns_same_pointer() {
    let a = TreeSitterClassifier::for_language(Language::Rust).unwrap();
    let b = TreeSitterClassifier::for_language(Language::Rust).unwrap();
    assert_eq!(a, b, "for_language(Rust) must return the same classifier on every call");
}
