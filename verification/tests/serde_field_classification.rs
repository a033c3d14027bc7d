//! Classification of files that are not read as syntax trees.

use rskim_search::fields::classify_serde_fields;
use rskim_search::fields::tree_sitter_fields::Language;
use rskim_search::SearchField;

const README_MD: &str = r##"# MyApp Authentication Service

A microservice handling user authentication and authorization.

## Getting Started

```bash
cargo build --release
cargo run -- --config config.json
```

## API Endpoints

- `POST /auth/login` — Authenticate with email and password
- `GET /auth/verify` — Verify a bearer token
- `PUT /users/:id/role` — Update user role (admin only)

## Architecture

The service uses a [layered architecture](https://en.wikipedia.org/wiki/Multitier_architecture)
with separate handler, service, and repository layers.

See [CONTRIBUTING.md](./CONTRIBUTING.md) for development guidelines.
"##;

#[test]
fn markdown_empty_string_returns_empty() {
    let result = classify_serde_fields("", Language::Markdown).expect("no error");
    assert!(result.is_empty());
}

#[test]
fn markdown_h1_is_type_definition() {
    let source = "# Title\n";
    let result = classify_serde_fields(source, Language::Markdown).expect("no error");
    let has_type_def = result.iter().any(|(_, f)| *f == SearchField::TypeDefinition);
    assert!(has_type_def, "H1 heading must be TypeDefinition; got {result:?}");
}

#[test]
fn markdown_code_block_is_function_body() {
    let source = "```rust\nfn main() {}\n```\n";
    let result = classify_serde_fields(source, Language::Markdown).expect("no error");
    let has_fn_body = result.iter().any(|(_, f)| *f == SearchField::FunctionBody);
    assert!(has_fn_body, "code block must be FunctionBody; got {result:?}");
}

#[test]
fn markdown_link_is_import_export() {
    let source = "Check [here](https://example.com) for details.\n";
    let result = classify_serde_fields(source, Language::Markdown).expect("no error");
    let has_import = result.iter().any(|(_, f)| *f == SearchField::ImportExport);
    assert!(has_import, "markdown link must be ImportExport; got {result:?}");
}

#[test]
fn markdown_prose_is_comment() {
    let source = "This is ordinary prose without any links.\n";
    let result = classify_serde_fields(source, Language::Markdown).expect("no error");
    let has_comment = result.iter().any(|(_, f)| *f == SearchField::Comment);
    assert!(has_comment, "prose must be Comment; got {result:?}");
}

#[test]
fn markdown_readme_fixture() {
    let result = classify_serde_fields(README_MD, Language::Markdown).expect("no error");
    assert!(!result.is_empty(), "README.md fixture must produce non-empty classification");
}

#[test]
fn non_serde_language_returns_empty() {
    let result = classify_serde_fields("function foo() {}", Language::TypeScript).expect("no error");
    assert!(result.is_empty(), "tree-sitter language must return empty from classify_serde_fields");
}
