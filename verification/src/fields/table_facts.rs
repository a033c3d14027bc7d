//! The per-language node-kind tables, entry by entry: for each language,
//! the kinds of nodes that are fields, and the kinds of parents that make an
//! identifier a declared name, each with its field.
use vstd::prelude::*;

use crate::types::query::SearchField;
use super::tree_sitter_fields::{field_of_kind, field_of_parent, TableSet};

verus! {

/// The TypeScript and JavaScript table of node kinds: each listed kind gives its field, and
/// no other kind gives one.
pub proof fn lemma_ts_kind_table()
    ensures
        field_of_kind(TableSet::TypeScript, "type_alias_declaration"@) == Some(SearchField::TypeDefinition),
        field_of_kind(TableSet::TypeScript, "interface_declaration"@) == Some(SearchField::TypeDefinition),
        field_of_kind(TableSet::TypeScript, "enum_declaration"@) == Some(SearchField::TypeDefinition),
        field_of_kind(TableSet::TypeScript, "class_declaration"@) == Some(SearchField::TypeDefinition),
        field_of_kind(TableSet::TypeScript, "function_declaration"@) == Some(SearchField::FunctionSignature),
        field_of_kind(TableSet::TypeScript, "method_definition"@) == Some(SearchField::FunctionSignature),
        field_of_kind(TableSet::TypeScript, "arrow_function"@) == Some(SearchField::FunctionSignature),
        field_of_kind(TableSet::TypeScript, "import_statement"@) == Some(SearchField::ImportExport),
        field_of_kind(TableSet::TypeScript, "export_statement"@) == Some(SearchField::ImportExport),
        field_of_kind(TableSet::TypeScript, "statement_block"@) == Some(SearchField::FunctionBody),
        field_of_kind(TableSet::TypeScript, "comment"@) == Some(SearchField::Comment),
        field_of_kind(TableSet::TypeScript, "string"@) == Some(SearchField::StringLiteral),
        field_of_kind(TableSet::TypeScript, "template_string"@) == Some(SearchField::StringLiteral),
        forall|kind: Seq<char>| #[trigger] field_of_kind(TableSet::TypeScript, kind) is Some ==> (kind == "type_alias_declaration"@ || kind == "interface_declaration"@ || kind == "enum_declaration"@ || kind == "class_declaration"@ || kind == "function_declaration"@ || kind == "method_definition"@ || kind == "arrow_function"@ || kind == "import_statement"@ || kind == "export_statement"@ || kind == "statement_block"@ || kind == "comment"@ || kind == "string"@ || kind == "template_string"@),
{
    reveal_strlit("type_alias_declaration");
    reveal_strlit("interface_declaration");
    reveal_strlit("enum_declaration");
    reveal_strlit("class_declaration");
    reveal_strlit("function_declaration");
    reveal_strlit("method_definition");
    reveal_strlit("arrow_function");
    reveal_strlit("import_statement");
    reveal_strlit("export_statement");
    reveal_strlit("statement_block");
    reveal_strlit("comment");
    reveal_strlit("string");
    reveal_strlit("template_string");
    assert("type_alias_declaration"@.len() == 22);
    assert("interface_declaration"@.len() == 21);
    assert("enum_declaration"@.len() == 16);
    assert("class_declaration"@.len() == 17);
    assert("function_declaration"@.len() == 20);
    assert("method_definition"@.len() == 17);
    assert("arrow_function"@.len() == 14);
    assert("import_statement"@.len() == 16);
    assert("export_statement"@.len() == 16);
    assert("statement_block"@.len() == 15);
    assert("comment"@.len() == 7);
    assert("string"@.len() == 6);
    assert("template_string"@.len() == 15);
    assert("class_declaration"@[0] == 'c');
    assert("enum_declaration"@[0] == 'e');
    assert("enum_declaration"@[1] == 'n');
    assert("export_statement"@[0] == 'e');
    assert("export_statement"@[1] == 'x');
    assert("import_statement"@[0] == 'i');
    assert("method_definition"@[0] == 'm');
    assert("statement_block"@[0] == 's');
    assert("template_string"@[0] == 't');
}

/// The TypeScript and JavaScript table of declaration parents of identifiers: each listed kind gives its field, and
/// no other kind gives one.
pub proof fn lemma_ts_parent_table()
    ensures
        field_of_parent(TableSet::TypeScript, "function_declaration"@) == Some(SearchField::SymbolName),
        field_of_parent(TableSet::TypeScript, "class_declaration"@) == Some(SearchField::SymbolName),
        field_of_parent(TableSet::TypeScript, "type_alias_declaration"@) == Some(SearchField::SymbolName),
        field_of_parent(TableSet::TypeScript, "variable_declarator"@) == Some(SearchField::SymbolName),
        field_of_parent(TableSet::TypeScript, "method_definition"@) == Some(SearchField::SymbolName),
        field_of_parent(TableSet::TypeScript, "interface_declaration"@) == Some(SearchField::SymbolName),
        field_of_parent(TableSet::TypeScript, "enum_declaration"@) == Some(SearchField::SymbolName),
        field_of_parent(TableSet::TypeScript, "import_specifier"@) == Some(SearchField::ImportExport),
        forall|kind: Seq<char>| #[trigger] field_of_parent(TableSet::TypeScript, kind) is Some ==> (kind == "function_declaration"@ || kind == "class_declaration"@ || kind == "type_alias_declaration"@ || kind == "variable_declarator"@ || kind == "method_definition"@ || kind == "interface_declaration"@ || kind == "enum_declaration"@ || kind == "import_specifier"@),
{
    reveal_strlit("function_declaration");
    reveal_strlit("class_declaration");
    reveal_strlit("type_alias_declaration");
    reveal_strlit("variable_declarator");
    reveal_strlit("method_definition");
    reveal_strlit("interface_declaration");
    reveal_strlit("enum_declaration");
    reveal_strlit("import_specifier");
    assert("function_declaration"@.len() == 20);
    assert("class_declaration"@.len() == 17);
    assert("type_alias_declaration"@.len() == 22);
    assert("variable_declarator"@.len() == 19);
    assert("method_definition"@.len() == 17);
    assert("interface_declaration"@.len() == 21);
    assert("enum_declaration"@.len() == 16);
    assert("import_specifier"@.len() == 16);
    assert("class_declaration"@[0] == 'c');
    assert("enum_declaration"@[0] == 'e');
    assert("import_specifier"@[0] == 'i');
    assert("method_definition"@[0] == 'm');
}

/// The Python table of node kinds: each listed kind gives its field, and
/// no other kind gives one.
pub proof fn lemma_py_kind_table()
    ensures
        field_of_kind(TableSet::Python, "class_definition"@) == Some(SearchField::TypeDefinition),
        field_of_kind(TableSet::Python, "function_definition"@) == Some(SearchField::FunctionSignature),
        field_of_kind(TableSet::Python, "decorated_definition"@) == Some(SearchField::FunctionSignature),
        field_of_kind(TableSet::Python, "import_statement"@) == Some(SearchField::ImportExport),
        field_of_kind(TableSet::Python, "import_from_statement"@) == Some(SearchField::ImportExport),
        field_of_kind(TableSet::Python, "block"@) == Some(SearchField::FunctionBody),
        field_of_kind(TableSet::Python, "comment"@) == Some(SearchField::Comment),
        field_of_kind(TableSet::Python, "string"@) == Some(SearchField::StringLiteral),
        forall|kind: Seq<char>| #[trigger] field_of_kind(TableSet::Python, kind) is Some ==> (kind == "class_definition"@ || kind == "function_definition"@ || kind == "decorated_definition"@ || kind == "import_statement"@ || kind == "import_from_statement"@ || kind == "block"@ || kind == "comment"@ || kind == "string"@),
{
    reveal_strlit("class_definition");
    reveal_strlit("function_definition");
    reveal_strlit("decorated_definition");
    reveal_strlit("import_statement");
    reveal_strlit("import_from_statement");
    reveal_strlit("block");
    reveal_strlit("comment");
    reveal_strlit("string");
    assert("class_definition"@.len() == 16);
    assert("function_definition"@.len() == 19);
    assert("decorated_definition"@.len() == 20);
    assert("import_statement"@.len() == 16);
    assert("import_from_statement"@.len() == 21);
    assert("block"@.len() == 5);
    assert("comment"@.len() == 7);
    assert("string"@.len() == 6);
    assert("class_definition"@[0] == 'c');
    assert("import_statement"@[0] == 'i');
}

/// The Python table of declaration parents of identifiers: each listed kind gives its field, and
/// no other kind gives one.
pub proof fn lemma_py_parent_table()
    ensures
        field_of_parent(TableSet::Python, "function_definition"@) == Some(SearchField::SymbolName),
        field_of_parent(TableSet::Python, "class_definition"@) == Some(SearchField::SymbolName),
        field_of_parent(TableSet::Python, "assignment"@) == Some(SearchField::SymbolName),
        forall|kind: Seq<char>| #[trigger] field_of_parent(TableSet::Python, kind) is Some ==> (kind == "function_definition"@ || kind == "class_definition"@ || kind == "assignment"@),
{
    reveal_strlit("function_definition");
    reveal_strlit("class_definition");
    reveal_strlit("assignment");
    assert("function_definition"@.len() == 19);
    assert("class_definition"@.len() == 16);
    assert("assignment"@.len() == 10);
}

/// The Rust table of node kinds: each listed kind gives its field, and
/// no other kind gives one.
pub proof fn lemma_rs_kind_table()
    ensures
        field_of_kind(TableSet::Rust, "struct_item"@) == Some(SearchField::TypeDefinition),
        field_of_kind(TableSet::Rust, "enum_item"@) == Some(SearchField::TypeDefinition),
        field_of_kind(TableSet::Rust, "type_item"@) == Some(SearchField::TypeDefinition),
        field_of_kind(TableSet::Rust, "trait_item"@) == Some(SearchField::TypeDefinition),
        field_of_kind(TableSet::Rust, "impl_item"@) == Some(SearchField::TypeDefinition),
        field_of_kind(TableSet::Rust, "function_item"@) == Some(SearchField::FunctionSignature),
        field_of_kind(TableSet::Rust, "function_signature_item"@) == Some(SearchField::FunctionSignature),
        field_of_kind(TableSet::Rust, "use_declaration"@) == Some(SearchField::ImportExport),
        field_of_kind(TableSet::Rust, "block"@) == Some(SearchField::FunctionBody),
        field_of_kind(TableSet::Rust, "line_comment"@) == Some(SearchField::Comment),
        field_of_kind(TableSet::Rust, "block_comment"@) == Some(SearchField::Comment),
        field_of_kind(TableSet::Rust, "string_literal"@) == Some(SearchField::StringLiteral),
        field_of_kind(TableSet::Rust, "raw_string_literal"@) == Some(SearchField::StringLiteral),
        forall|kind: Seq<char>| #[trigger] field_of_kind(TableSet::Rust, kind) is Some ==> (kind == "struct_item"@ || kind == "enum_item"@ || kind == "type_item"@ || kind == "trait_item"@ || kind == "impl_item"@ || kind == "function_item"@ || kind == "function_signature_item"@ || kind == "use_declaration"@ || kind == "block"@ || kind == "line_comment"@ || kind == "block_comment"@ || kind == "string_literal"@ || kind == "raw_string_literal"@),
{
    reveal_strlit("struct_item");
    reveal_strlit("enum_item");
    reveal_strlit("type_item");
    reveal_strlit("trait_item");
    reveal_strlit("impl_item");
    reveal_strlit("function_item");
    reveal_strlit("function_signature_item");
    reveal_strlit("use_declaration");
    reveal_strlit("block");
    reveal_strlit("line_comment");
    reveal_strlit("block_comment");
    reveal_strlit("string_literal");
    reveal_strlit("raw_string_literal");
    assert("struct_item"@.len() == 11);
    assert("enum_item"@.len() == 9);
    assert("type_item"@.len() == 9);
    assert("trait_item"@.len() == 10);
    assert("impl_item"@.len() == 9);
    assert("function_item"@.len() == 13);
    assert("function_signature_item"@.len() == 23);
    assert("use_declaration"@.len() == 15);
    assert("block"@.len() == 5);
    assert("line_comment"@.len() == 12);
    assert("block_comment"@.len() == 13);
    assert("string_literal"@.len() == 14);
    assert("raw_string_literal"@.len() == 18);
    assert("block_comment"@[0] == 'b');
    assert("enum_item"@[0] == 'e');
    assert("function_item"@[0] == 'f');
    assert("impl_item"@[0] == 'i');
    assert("type_item"@[0] == 't');
}

/// The Rust table of declaration parents of identifiers: each listed kind gives its field, and
/// no other kind gives one.
pub proof fn lemma_rs_parent_table()
    ensures
        field_of_parent(TableSet::Rust, "function_item"@) == Some(SearchField::SymbolName),
        field_of_parent(TableSet::Rust, "struct_item"@) == Some(SearchField::SymbolName),
        field_of_parent(TableSet::Rust, "enum_item"@) == Some(SearchField::SymbolName),
        field_of_parent(TableSet::Rust, "trait_item"@) == Some(SearchField::SymbolName),
        field_of_parent(TableSet::Rust, "type_item"@) == Some(SearchField::SymbolName),
        field_of_parent(TableSet::Rust, "const_item"@) == Some(SearchField::SymbolName),
        field_of_parent(TableSet::Rust, "static_item"@) == Some(SearchField::SymbolName),
        field_of_parent(TableSet::Rust, "mod_item"@) == Some(SearchField::SymbolName),
        forall|kind: Seq<char>| #[trigger] field_of_parent(TableSet::Rust, kind) is Some ==> (kind == "function_item"@ || kind == "struct_item"@ || kind == "enum_item"@ || kind == "trait_item"@ || kind == "type_item"@ || kind == "const_item"@ || kind == "static_item"@ || kind == "mod_item"@),
{
    reveal_strlit("function_item");
    reveal_strlit("struct_item");
    reveal_strlit("enum_item");
    reveal_strlit("trait_item");
    reveal_strlit("type_item");
    reveal_strlit("const_item");
    reveal_strlit("static_item");
    reveal_strlit("mod_item");
    assert("function_item"@.len() == 13);
    assert("struct_item"@.len() == 11);
    assert("enum_item"@.len() == 9);
    assert("trait_item"@.len() == 10);
    assert("type_item"@.len() == 9);
    assert("const_item"@.len() == 10);
    assert("static_item"@.len() == 11);
    assert("mod_item"@.len() == 8);
    assert("const_item"@[0] == 'c');
    assert("enum_item"@[0] == 'e');
    assert("static_item"@[2] == 'a');
    assert("struct_item"@[2] == 'r');
    assert("trait_item"@[0] == 't');
    assert("type_item"@[0] == 't');
}

/// The Go table of node kinds: each listed kind gives its field, and
/// no other kind gives one.
pub proof fn lemma_go_kind_table()
    ensures
        field_of_kind(TableSet::Go, "type_declaration"@) == Some(SearchField::TypeDefinition),
        field_of_kind(TableSet::Go, "type_spec"@) == Some(SearchField::TypeDefinition),
        field_of_kind(TableSet::Go, "function_declaration"@) == Some(SearchField::FunctionSignature),
        field_of_kind(TableSet::Go, "method_declaration"@) == Some(SearchField::FunctionSignature),
        field_of_kind(TableSet::Go, "import_declaration"@) == Some(SearchField::ImportExport),
        field_of_kind(TableSet::Go, "block"@) == Some(SearchField::FunctionBody),
        field_of_kind(TableSet::Go, "comment"@) == Some(SearchField::Comment),
        field_of_kind(TableSet::Go, "interpreted_string_literal"@) == Some(SearchField::StringLiteral),
        field_of_kind(TableSet::Go, "raw_string_literal"@) == Some(SearchField::StringLiteral),
        forall|kind: Seq<char>| #[trigger] field_of_kind(TableSet::Go, kind) is Some ==> (kind == "type_declaration"@ || kind == "type_spec"@ || kind == "function_declaration"@ || kind == "method_declaration"@ || kind == "import_declaration"@ || kind == "block"@ || kind == "comment"@ || kind == "interpreted_string_literal"@ || kind == "raw_string_literal"@),
{
    reveal_strlit("type_declaration");
    reveal_strlit("type_spec");
    reveal_strlit("function_declaration");
    reveal_strlit("method_declaration");
    reveal_strlit("import_declaration");
    reveal_strlit("block");
    reveal_strlit("comment");
    reveal_strlit("interpreted_string_literal");
    reveal_strlit("raw_string_literal");
    assert("type_declaration"@.len() == 16);
    assert("type_spec"@.len() == 9);
    assert("function_declaration"@.len() == 20);
    assert("method_declaration"@.len() == 18);
    assert("import_declaration"@.len() == 18);
    assert("block"@.len() == 5);
    assert("comment"@.len() == 7);
    assert("interpreted_string_literal"@.len() == 26);
    assert("raw_string_literal"@.len() == 18);
    assert("import_declaration"@[0] == 'i');
    assert("method_declaration"@[0] == 'm');
    assert("raw_string_literal"@[0] == 'r');
}

/// The Go table of declaration parents of identifiers: each listed kind gives its field, and
/// no other kind gives one.
pub proof fn lemma_go_parent_table()
    ensures
        field_of_parent(TableSet::Go, "function_declaration"@) == Some(SearchField::SymbolName),
        field_of_parent(TableSet::Go, "method_declaration"@) == Some(SearchField::SymbolName),
        field_of_parent(TableSet::Go, "type_spec"@) == Some(SearchField::SymbolName),
        field_of_parent(TableSet::Go, "const_spec"@) == Some(SearchField::SymbolName),
        field_of_parent(TableSet::Go, "var_spec"@) == Some(SearchField::SymbolName),
        forall|kind: Seq<char>| #[trigger] field_of_parent(TableSet::Go, kind) is Some ==> (kind == "function_declaration"@ || kind == "method_declaration"@ || kind == "type_spec"@ || kind == "const_spec"@ || kind == "var_spec"@),
{
    reveal_strlit("function_declaration");
    reveal_strlit("method_declaration");
    reveal_strlit("type_spec");
    reveal_strlit("const_spec");
    reveal_strlit("var_spec");
    assert("function_declaration"@.len() == 20);
    assert("method_declaration"@.len() == 18);
    assert("type_spec"@.len() == 9);
    assert("const_spec"@.len() == 10);
    assert("var_spec"@.len() == 8);
}

/// The Java table of node kinds: each listed kind gives its field, and
/// no other kind gives one.
pub proof fn lemma_java_kind_table()
    ensures
        field_of_kind(TableSet::Java, "class_declaration"@) == Some(SearchField::TypeDefinition),
        field_of_kind(TableSet::Java, "interface_declaration"@) == Some(SearchField::TypeDefinition),
        field_of_kind(TableSet::Java, "enum_declaration"@) == Some(SearchField::TypeDefinition),
        field_of_kind(TableSet::Java, "annotation_type_declaration"@) == Some(SearchField::TypeDefinition),
        field_of_kind(TableSet::Java, "method_declaration"@) == Some(SearchField::FunctionSignature),
        field_of_kind(TableSet::Java, "constructor_declaration"@) == Some(SearchField::FunctionSignature),
        field_of_kind(TableSet::Java, "import_declaration"@) == Some(SearchField::ImportExport),
        field_of_kind(TableSet::Java, "block"@) == Some(SearchField::FunctionBody),
        field_of_kind(TableSet::Java, "line_comment"@) == Some(SearchField::Comment),
        field_of_kind(TableSet::Java, "block_comment"@) == Some(SearchField::Comment),
        field_of_kind(TableSet::Java, "string_literal"@) == Some(SearchField::StringLiteral),
        forall|kind: Seq<char>| #[trigger] field_of_kind(TableSet::Java, kind) is Some ==> (kind == "class_declaration"@ || kind == "interface_declaration"@ || kind == "enum_declaration"@ || kind == "annotation_type_declaration"@ || kind == "method_declaration"@ || kind == "constructor_declaration"@ || kind == "import_declaration"@ || kind == "block"@ || kind == "line_comment"@ || kind == "block_comment"@ || kind == "string_literal"@),
{
    reveal_strlit("class_declaration");
    reveal_strlit("interface_declaration");
    reveal_strlit("enum_declaration");
    reveal_strlit("annotation_type_declaration");
    reveal_strlit("method_declaration");
    reveal_strlit("constructor_declaration");
    reveal_strlit("import_declaration");
    reveal_strlit("block");
    reveal_strlit("line_comment");
    reveal_strlit("block_comment");
    reveal_strlit("string_literal");
    assert("class_declaration"@.len() == 17);
    assert("interface_declaration"@.len() == 21);
    assert("enum_declaration"@.len() == 16);
    assert("annotation_type_declaration"@.len() == 27);
    assert("method_declaration"@.len() == 18);
    assert("constructor_declaration"@.len() == 23);
    assert("import_declaration"@.len() == 18);
    assert("block"@.len() == 5);
    assert("line_comment"@.len() == 12);
    assert("block_comment"@.len() == 13);
    assert("string_literal"@.len() == 14);
    assert("import_declaration"@[0] == 'i');
    assert("method_declaration"@[0] == 'm');
}

/// The Java table of declaration parents of identifiers: each listed kind gives its field, and
/// no other kind gives one.
pub proof fn lemma_java_parent_table()
    ensures
        field_of_parent(TableSet::Java, "class_declaration"@) == Some(SearchField::SymbolName),
        field_of_parent(TableSet::Java, "method_declaration"@) == Some(SearchField::SymbolName),
        field_of_parent(TableSet::Java, "interface_declaration"@) == Some(SearchField::SymbolName),
        field_of_parent(TableSet::Java, "enum_declaration"@) == Some(SearchField::SymbolName),
        field_of_parent(TableSet::Java, "variable_declarator"@) == Some(SearchField::SymbolName),
        forall|kind: Seq<char>| #[trigger] field_of_parent(TableSet::Java, kind) is Some ==> (kind == "class_declaration"@ || kind == "method_declaration"@ || kind == "interface_declaration"@ || kind == "enum_declaration"@ || kind == "variable_declarator"@),
{
    reveal_strlit("class_declaration");
    reveal_strlit("method_declaration");
    reveal_strlit("interface_declaration");
    reveal_strlit("enum_declaration");
    reveal_strlit("variable_declarator");
    assert("class_declaration"@.len() == 17);
    assert("method_declaration"@.len() == 18);
    assert("interface_declaration"@.len() == 21);
    assert("enum_declaration"@.len() == 16);
    assert("variable_declarator"@.len() == 19);
}

/// The C table of node kinds: each listed kind gives its field, and
/// no other kind gives one.
pub proof fn lemma_c_kind_table()
    ensures
        field_of_kind(TableSet::C, "struct_specifier"@) == Some(SearchField::TypeDefinition),
        field_of_kind(TableSet::C, "enum_specifier"@) == Some(SearchField::TypeDefinition),
        field_of_kind(TableSet::C, "type_definition"@) == Some(SearchField::TypeDefinition),
        field_of_kind(TableSet::C, "union_specifier"@) == Some(SearchField::TypeDefinition),
        field_of_kind(TableSet::C, "function_definition"@) == Some(SearchField::FunctionSignature),
        field_of_kind(TableSet::C, "declaration"@) == Some(SearchField::FunctionSignature),
        field_of_kind(TableSet::C, "preproc_include"@) == Some(SearchField::ImportExport),
        field_of_kind(TableSet::C, "compound_statement"@) == Some(SearchField::FunctionBody),
        field_of_kind(TableSet::C, "comment"@) == Some(SearchField::Comment),
        field_of_kind(TableSet::C, "string_literal"@) == Some(SearchField::StringLiteral),
        forall|kind: Seq<char>| #[trigger] field_of_kind(TableSet::C, kind) is Some ==> (kind == "struct_specifier"@ || kind == "enum_specifier"@ || kind == "type_definition"@ || kind == "union_specifier"@ || kind == "function_definition"@ || kind == "declaration"@ || kind == "preproc_include"@ || kind == "compound_statement"@ || kind == "comment"@ || kind == "string_literal"@),
{
    reveal_strlit("struct_specifier");
    reveal_strlit("enum_specifier");
    reveal_strlit("type_definition");
    reveal_strlit("union_specifier");
    reveal_strlit("function_definition");
    reveal_strlit("declaration");
    reveal_strlit("preproc_include");
    reveal_strlit("compound_statement");
    reveal_strlit("comment");
    reveal_strlit("string_literal");
    assert("struct_specifier"@.len() == 16);
    assert("enum_specifier"@.len() == 14);
    assert("type_definition"@.len() == 15);
    assert("union_specifier"@.len() == 15);
    assert("function_definition"@.len() == 19);
    assert("declaration"@.len() == 11);
    assert("preproc_include"@.len() == 15);
    assert("compound_statement"@.len() == 18);
    assert("comment"@.len() == 7);
    assert("string_literal"@.len() == 14);
    assert("enum_specifier"@[0] == 'e');
    assert("preproc_include"@[0] == 'p');
    assert("string_literal"@[0] == 's');
    assert("type_definition"@[0] == 't');
    assert("union_specifier"@[0] == 'u');
}

/// The C table of declaration parents of identifiers: each listed kind gives its field, and
/// no other kind gives one.
pub proof fn lemma_c_parent_table()
    ensures
        field_of_parent(TableSet::C, "function_definition"@) == Some(SearchField::SymbolName),
        field_of_parent(TableSet::C, "function_declarator"@) == Some(SearchField::SymbolName),
        field_of_parent(TableSet::C, "struct_specifier"@) == Some(SearchField::SymbolName),
        field_of_parent(TableSet::C, "enum_specifier"@) == Some(SearchField::SymbolName),
        field_of_parent(TableSet::C, "type_definition"@) == Some(SearchField::SymbolName),
        field_of_parent(TableSet::C, "init_declarator"@) == Some(SearchField::SymbolName),
        forall|kind: Seq<char>| #[trigger] field_of_parent(TableSet::C, kind) is Some ==> (kind == "function_definition"@ || kind == "function_declarator"@ || kind == "struct_specifier"@ || kind == "enum_specifier"@ || kind == "type_definition"@ || kind == "init_declarator"@),
{
    reveal_strlit("function_definition");
    reveal_strlit("function_declarator");
    reveal_strlit("struct_specifier");
    reveal_strlit("enum_specifier");
    reveal_strlit("type_definition");
    reveal_strlit("init_declarator");
    assert("function_definition"@.len() == 19);
    assert("function_declarator"@.len() == 19);
    assert("struct_specifier"@.len() == 16);
    assert("enum_specifier"@.len() == 14);
    assert("type_definition"@.len() == 15);
    assert("init_declarator"@.len() == 15);
    assert("function_declarator"@[11] == 'c');
    assert("function_definition"@[11] == 'f');
    assert("init_declarator"@[0] == 'i');
    assert("type_definition"@[0] == 't');
}

/// The C++ table of node kinds: each listed kind gives its field, and
/// no other kind gives one.
pub proof fn lemma_cpp_kind_table()
    ensures
        field_of_kind(TableSet::Cpp, "struct_specifier"@) == Some(SearchField::TypeDefinition),
        field_of_kind(TableSet::Cpp, "enum_specifier"@) == Some(SearchField::TypeDefinition),
        field_of_kind(TableSet::Cpp, "type_definition"@) == Some(SearchField::TypeDefinition),
        field_of_kind(TableSet::Cpp, "union_specifier"@) == Some(SearchField::TypeDefinition),
        field_of_kind(TableSet::Cpp, "class_specifier"@) == Some(SearchField::TypeDefinition),
        field_of_kind(TableSet::Cpp, "namespace_definition"@) == Some(SearchField::TypeDefinition),
        field_of_kind(TableSet::Cpp, "template_declaration"@) == Some(SearchField::TypeDefinition),
        field_of_kind(TableSet::Cpp, "function_definition"@) == Some(SearchField::FunctionSignature),
        field_of_kind(TableSet::Cpp, "declaration"@) == Some(SearchField::FunctionSignature),
        field_of_kind(TableSet::Cpp, "preproc_include"@) == Some(SearchField::ImportExport),
        field_of_kind(TableSet::Cpp, "using_declaration"@) == Some(SearchField::ImportExport),
        field_of_kind(TableSet::Cpp, "compound_statement"@) == Some(SearchField::FunctionBody),
        field_of_kind(TableSet::Cpp, "comment"@) == Some(SearchField::Comment),
        field_of_kind(TableSet::Cpp, "string_literal"@) == Some(SearchField::StringLiteral),
        forall|kind: Seq<char>| #[trigger] field_of_kind(TableSet::Cpp, kind) is Some ==> (kind == "struct_specifier"@ || kind == "enum_specifier"@ || kind == "type_definition"@ || kind == "union_specifier"@ || kind == "class_specifier"@ || kind == "namespace_definition"@ || kind == "template_declaration"@ || kind == "function_definition"@ || kind == "declaration"@ || kind == "preproc_include"@ || kind == "using_declaration"@ || kind == "compound_statement"@ || kind == "comment"@ || kind == "string_literal"@),
{
    reveal_strlit("struct_specifier");
    reveal_strlit("enum_specifier");
    reveal_strlit("type_definition");
    reveal_strlit("union_specifier");
    reveal_strlit("class_specifier");
    reveal_strlit("namespace_definition");
    reveal_strlit("template_declaration");
    reveal_strlit("function_definition");
    reveal_strlit("declaration");
    reveal_strlit("preproc_include");
    reveal_strlit("using_declaration");
    reveal_strlit("compound_statement");
    reveal_strlit("comment");
    reveal_strlit("string_literal");
    assert("struct_specifier"@.len() == 16);
    assert("enum_specifier"@.len() == 14);
    assert("type_definition"@.len() == 15);
    assert("union_specifier"@.len() == 15);
    assert("class_specifier"@.len() == 15);
    assert("namespace_definition"@.len() == 20);
    assert("template_declaration"@.len() == 20);
    assert("function_definition"@.len() == 19);
    assert("declaration"@.len() == 11);
    assert("preproc_include"@.len() == 15);
    assert("using_declaration"@.len() == 17);
    assert("compound_statement"@.len() == 18);
    assert("comment"@.len() == 7);
    assert("string_literal"@.len() == 14);
    assert("class_specifier"@[0] == 'c');
    assert("enum_specifier"@[0] == 'e');
    assert("namespace_definition"@[0] == 'n');
    assert("preproc_include"@[0] == 'p');
    assert("string_literal"@[0] == 's');
    assert("template_declaration"@[0] == 't');
    assert("type_definition"@[0] == 't');
    assert("union_specifier"@[0] == 'u');
}

/// The C++ table of declaration parents of identifiers: each listed kind gives its field, and
/// no other kind gives one.
pub proof fn lemma_cpp_parent_table()
    ensures
        field_of_parent(TableSet::Cpp, "function_definition"@) == Some(SearchField::SymbolName),
        field_of_parent(TableSet::Cpp, "function_declarator"@) == Some(SearchField::SymbolName),
        field_of_parent(TableSet::Cpp, "struct_specifier"@) == Some(SearchField::SymbolName),
        field_of_parent(TableSet::Cpp, "enum_specifier"@) == Some(SearchField::SymbolName),
        field_of_parent(TableSet::Cpp, "type_definition"@) == Some(SearchField::SymbolName),
        field_of_parent(TableSet::Cpp, "init_declarator"@) == Some(SearchField::SymbolName),
        field_of_parent(TableSet::Cpp, "class_specifier"@) == Some(SearchField::SymbolName),
        field_of_parent(TableSet::Cpp, "namespace_definition"@) == Some(SearchField::SymbolName),
        forall|kind: Seq<char>| #[trigger] field_of_parent(TableSet::Cpp, kind) is Some ==> (kind == "function_definition"@ || kind == "function_declarator"@ || kind == "struct_specifier"@ || kind == "enum_specifier"@ || kind == "type_definition"@ || kind == "init_declarator"@ || kind == "class_specifier"@ || kind == "namespace_definition"@),
{
    reveal_strlit("function_definition");
    reveal_strlit("function_declarator");
    reveal_strlit("struct_specifier");
    reveal_strlit("enum_specifier");
    reveal_strlit("type_definition");
    reveal_strlit("init_declarator");
    reveal_strlit("class_specifier");
    reveal_strlit("namespace_definition");
    assert("function_definition"@.len() == 19);
    assert("function_declarator"@.len() == 19);
    assert("struct_specifier"@.len() == 16);
    assert("enum_specifier"@.len() == 14);
    assert("type_definition"@.len() == 15);
    assert("init_declarator"@.len() == 15);
    assert("class_specifier"@.len() == 15);
    assert("namespace_definition"@.len() == 20);
    assert("class_specifier"@[0] == 'c');
    assert("function_declarator"@[11] == 'c');
    assert("function_definition"@[11] == 'f');
    assert("init_declarator"@[0] == 'i');
    assert("type_definition"@[0] == 't');
}

/// The C# table of node kinds: each listed kind gives its field, and
/// no other kind gives one.
pub proof fn lemma_cs_kind_table()
    ensures
        field_of_kind(TableSet::CSharp, "class_declaration"@) == Some(SearchField::TypeDefinition),
        field_of_kind(TableSet::CSharp, "struct_declaration"@) == Some(SearchField::TypeDefinition),
        field_of_kind(TableSet::CSharp, "interface_declaration"@) == Some(SearchField::TypeDefinition),
        field_of_kind(TableSet::CSharp, "enum_declaration"@) == Some(SearchField::TypeDefinition),
        field_of_kind(TableSet::CSharp, "method_declaration"@) == Some(SearchField::FunctionSignature),
        field_of_kind(TableSet::CSharp, "constructor_declaration"@) == Some(SearchField::FunctionSignature),
        field_of_kind(TableSet::CSharp, "using_directive"@) == Some(SearchField::ImportExport),
        field_of_kind(TableSet::CSharp, "block"@) == Some(SearchField::FunctionBody),
        field_of_kind(TableSet::CSharp, "comment"@) == Some(SearchField::Comment),
        field_of_kind(TableSet::CSharp, "string_literal"@) == Some(SearchField::StringLiteral),
        field_of_kind(TableSet::CSharp, "verbatim_string_literal"@) == Some(SearchField::StringLiteral),
        forall|kind: Seq<char>| #[trigger] field_of_kind(TableSet::CSharp, kind) is Some ==> (kind == "class_declaration"@ || kind == "struct_declaration"@ || kind == "interface_declaration"@ || kind == "enum_declaration"@ || kind == "method_declaration"@ || kind == "constructor_declaration"@ || kind == "using_directive"@ || kind == "block"@ || kind == "comment"@ || kind == "string_literal"@ || kind == "verbatim_string_literal"@),
{
    reveal_strlit("class_declaration");
    reveal_strlit("struct_declaration");
    reveal_strlit("interface_declaration");
    reveal_strlit("enum_declaration");
    reveal_strlit("method_declaration");
    reveal_strlit("constructor_declaration");
    reveal_strlit("using_directive");
    reveal_strlit("block");
    reveal_strlit("comment");
    reveal_strlit("string_literal");
    reveal_strlit("verbatim_string_literal");
    assert("class_declaration"@.len() == 17);
    assert("struct_declaration"@.len() == 18);
    assert("interface_declaration"@.len() == 21);
    assert("enum_declaration"@.len() == 16);
    assert("method_declaration"@.len() == 18);
    assert("constructor_declaration"@.len() == 23);
    assert("using_directive"@.len() == 15);
    assert("block"@.len() == 5);
    assert("comment"@.len() == 7);
    assert("string_literal"@.len() == 14);
    assert("verbatim_string_literal"@.len() == 23);
    assert("constructor_declaration"@[0] == 'c');
    assert("method_declaration"@[0] == 'm');
    assert("struct_declaration"@[0] == 's');
    assert("verbatim_string_literal"@[0] == 'v');
}

/// The C# table of declaration parents of identifiers: each listed kind gives its field, and
/// no other kind gives one.
pub proof fn lemma_cs_parent_table()
    ensures
        field_of_parent(TableSet::CSharp, "class_declaration"@) == Some(SearchField::SymbolName),
        field_of_parent(TableSet::CSharp, "struct_declaration"@) == Some(SearchField::SymbolName),
        field_of_parent(TableSet::CSharp, "method_declaration"@) == Some(SearchField::SymbolName),
        field_of_parent(TableSet::CSharp, "interface_declaration"@) == Some(SearchField::SymbolName),
        field_of_parent(TableSet::CSharp, "variable_declarator"@) == Some(SearchField::SymbolName),
        forall|kind: Seq<char>| #[trigger] field_of_parent(TableSet::CSharp, kind) is Some ==> (kind == "class_declaration"@ || kind == "struct_declaration"@ || kind == "method_declaration"@ || kind == "interface_declaration"@ || kind == "variable_declarator"@),
{
    reveal_strlit("class_declaration");
    reveal_strlit("struct_declaration");
    reveal_strlit("method_declaration");
    reveal_strlit("interface_declaration");
    reveal_strlit("variable_declarator");
    assert("class_declaration"@.len() == 17);
    assert("struct_declaration"@.len() == 18);
    assert("method_declaration"@.len() == 18);
    assert("interface_declaration"@.len() == 21);
    assert("variable_declarator"@.len() == 19);
    assert("method_declaration"@[0] == 'm');
    assert("struct_declaration"@[0] == 's');
}

/// The Ruby table of node kinds: each listed kind gives its field, and
/// no other kind gives one.
pub proof fn lemma_rb_kind_table()
    ensures
        field_of_kind(TableSet::Ruby, "class"@) == Some(SearchField::TypeDefinition),
        field_of_kind(TableSet::Ruby, "module"@) == Some(SearchField::TypeDefinition),
        field_of_kind(TableSet::Ruby, "method"@) == Some(SearchField::FunctionSignature),
        field_of_kind(TableSet::Ruby, "singleton_method"@) == Some(SearchField::FunctionSignature),
        field_of_kind(TableSet::Ruby, "call"@) == Some(SearchField::ImportExport),
        field_of_kind(TableSet::Ruby, "body_statement"@) == Some(SearchField::FunctionBody),
        field_of_kind(TableSet::Ruby, "comment"@) == Some(SearchField::Comment),
        field_of_kind(TableSet::Ruby, "string"@) == Some(SearchField::StringLiteral),
        forall|kind: Seq<char>| #[trigger] field_of_kind(TableSet::Ruby, kind) is Some ==> (kind == "class"@ || kind == "module"@ || kind == "method"@ || kind == "singleton_method"@ || kind == "call"@ || kind == "body_statement"@ || kind == "comment"@ || kind == "string"@),
{
    reveal_strlit("class");
    reveal_strlit("module");
    reveal_strlit("method");
    reveal_strlit("singleton_method");
    reveal_strlit("call");
    reveal_strlit("body_statement");
    reveal_strlit("comment");
    reveal_strlit("string");
    assert("class"@.len() == 5);
    assert("module"@.len() == 6);
    assert("method"@.len() == 6);
    assert("singleton_method"@.len() == 16);
    assert("call"@.len() == 4);
    assert("body_statement"@.len() == 14);
    assert("comment"@.len() == 7);
    assert("string"@.len() == 6);
    assert("method"@[0] == 'm');
    assert("method"@[1] == 'e');
    assert("module"@[0] == 'm');
    assert("module"@[1] == 'o');
    assert("string"@[0] == 's');
}

/// The Ruby table of declaration parents of identifiers: each listed kind gives its field, and
/// no other kind gives one.
pub proof fn lemma_rb_parent_table()
    ensures
        field_of_parent(TableSet::Ruby, "class"@) == Some(SearchField::SymbolName),
        field_of_parent(TableSet::Ruby, "module"@) == Some(SearchField::SymbolName),
        field_of_parent(TableSet::Ruby, "method"@) == Some(SearchField::SymbolName),
        field_of_parent(TableSet::Ruby, "assignment"@) == Some(SearchField::SymbolName),
        forall|kind: Seq<char>| #[trigger] field_of_parent(TableSet::Ruby, kind) is Some ==> (kind == "class"@ || kind == "module"@ || kind == "method"@ || kind == "assignment"@),
{
    reveal_strlit("class");
    reveal_strlit("module");
    reveal_strlit("method");
    reveal_strlit("assignment");
    assert("class"@.len() == 5);
    assert("module"@.len() == 6);
    assert("method"@.len() == 6);
    assert("assignment"@.len() == 10);
    assert("method"@[1] == 'e');
    assert("module"@[1] == 'o');
}

/// The Kotlin table of node kinds: each listed kind gives its field, and
/// no other kind gives one.
pub proof fn lemma_kt_kind_table()
    ensures
        field_of_kind(TableSet::Kotlin, "class_declaration"@) == Some(SearchField::TypeDefinition),
        field_of_kind(TableSet::Kotlin, "object_declaration"@) == Some(SearchField::TypeDefinition),
        field_of_kind(TableSet::Kotlin, "type_alias"@) == Some(SearchField::TypeDefinition),
        field_of_kind(TableSet::Kotlin, "function_declaration"@) == Some(SearchField::FunctionSignature),
        field_of_kind(TableSet::Kotlin, "import_header"@) == Some(SearchField::ImportExport),
        field_of_kind(TableSet::Kotlin, "function_body"@) == Some(SearchField::FunctionBody),
        field_of_kind(TableSet::Kotlin, "line_comment"@) == Some(SearchField::Comment),
        field_of_kind(TableSet::Kotlin, "multiline_comment"@) == Some(SearchField::Comment),
        field_of_kind(TableSet::Kotlin, "string_literal"@) == Some(SearchField::StringLiteral),
        forall|kind: Seq<char>| #[trigger] field_of_kind(TableSet::Kotlin, kind) is Some ==> (kind == "class_declaration"@ || kind == "object_declaration"@ || kind == "type_alias"@ || kind == "function_declaration"@ || kind == "import_header"@ || kind == "function_body"@ || kind == "line_comment"@ || kind == "multiline_comment"@ || kind == "string_literal"@),
{
    reveal_strlit("class_declaration");
    reveal_strlit("object_declaration");
    reveal_strlit("type_alias");
    reveal_strlit("function_declaration");
    reveal_strlit("import_header");
    reveal_strlit("function_body");
    reveal_strlit("line_comment");
    reveal_strlit("multiline_comment");
    reveal_strlit("string_literal");
    assert("class_declaration"@.len() == 17);
    assert("object_declaration"@.len() == 18);
    assert("type_alias"@.len() == 10);
    assert("function_declaration"@.len() == 20);
    assert("import_header"@.len() == 13);
    assert("function_body"@.len() == 13);
    assert("line_comment"@.len() == 12);
    assert("multiline_comment"@.len() == 17);
    assert("string_literal"@.len() == 14);
    assert("class_declaration"@[0] == 'c');
    assert("function_body"@[0] == 'f');
    assert("import_header"@[0] == 'i');
    assert("multiline_comment"@[0] == 'm');
}

/// The Kotlin table of declaration parents of identifiers: each listed kind gives its field, and
/// no other kind gives one.
pub proof fn lemma_kt_parent_table()
    ensures
        field_of_parent(TableSet::Kotlin, "function_declaration"@) == Some(SearchField::SymbolName),
        field_of_parent(TableSet::Kotlin, "class_declaration"@) == Some(SearchField::SymbolName),
        field_of_parent(TableSet::Kotlin, "object_declaration"@) == Some(SearchField::SymbolName),
        field_of_parent(TableSet::Kotlin, "property_declaration"@) == Some(SearchField::SymbolName),
        forall|kind: Seq<char>| #[trigger] field_of_parent(TableSet::Kotlin, kind) is Some ==> (kind == "function_declaration"@ || kind == "class_declaration"@ || kind == "object_declaration"@ || kind == "property_declaration"@),
{
    reveal_strlit("function_declaration");
    reveal_strlit("class_declaration");
    reveal_strlit("object_declaration");
    reveal_strlit("property_declaration");
    assert("function_declaration"@.len() == 20);
    assert("class_declaration"@.len() == 17);
    assert("object_declaration"@.len() == 18);
    assert("property_declaration"@.len() == 20);
    assert("function_declaration"@[0] == 'f');
    assert("property_declaration"@[0] == 'p');
}

/// The Swift table of node kinds: each listed kind gives its field, and
/// no other kind gives one.
pub proof fn lemma_swift_kind_table()
    ensures
        field_of_kind(TableSet::Swift, "class_declaration"@) == Some(SearchField::TypeDefinition),
        field_of_kind(TableSet::Swift, "struct_declaration"@) == Some(SearchField::TypeDefinition),
        field_of_kind(TableSet::Swift, "protocol_declaration"@) == Some(SearchField::TypeDefinition),
        field_of_kind(TableSet::Swift, "enum_declaration"@) == Some(SearchField::TypeDefinition),
        field_of_kind(TableSet::Swift, "function_declaration"@) == Some(SearchField::FunctionSignature),
        field_of_kind(TableSet::Swift, "init_declaration"@) == Some(SearchField::FunctionSignature),
        field_of_kind(TableSet::Swift, "import_declaration"@) == Some(SearchField::ImportExport),
        field_of_kind(TableSet::Swift, "code_block"@) == Some(SearchField::FunctionBody),
        field_of_kind(TableSet::Swift, "comment"@) == Some(SearchField::Comment),
        field_of_kind(TableSet::Swift, "multiline_comment"@) == Some(SearchField::Comment),
        field_of_kind(TableSet::Swift, "line_string_literal"@) == Some(SearchField::StringLiteral),
        forall|kind: Seq<char>| #[trigger] field_of_kind(TableSet::Swift, kind) is Some ==> (kind == "class_declaration"@ || kind == "struct_declaration"@ || kind == "protocol_declaration"@ || kind == "enum_declaration"@ || kind == "function_declaration"@ || kind == "init_declaration"@ || kind == "import_declaration"@ || kind == "code_block"@ || kind == "comment"@ || kind == "multiline_comment"@ || kind == "line_string_literal"@),
{
    reveal_strlit("class_declaration");
    reveal_strlit("struct_declaration");
    reveal_strlit("protocol_declaration");
    reveal_strlit("enum_declaration");
    reveal_strlit("function_declaration");
    reveal_strlit("init_declaration");
    reveal_strlit("import_declaration");
    reveal_strlit("code_block");
    reveal_strlit("comment");
    reveal_strlit("multiline_comment");
    reveal_strlit("line_string_literal");
    assert("class_declaration"@.len() == 17);
    assert("struct_declaration"@.len() == 18);
    assert("protocol_declaration"@.len() == 20);
    assert("enum_declaration"@.len() == 16);
    assert("function_declaration"@.len() == 20);
    assert("init_declaration"@.len() == 16);
    assert("import_declaration"@.len() == 18);
    assert("code_block"@.len() == 10);
    assert("comment"@.len() == 7);
    assert("multiline_comment"@.len() == 17);
    assert("line_string_literal"@.len() == 19);
    assert("class_declaration"@[0] == 'c');
    assert("enum_declaration"@[0] == 'e');
    assert("function_declaration"@[0] == 'f');
    assert("import_declaration"@[0] == 'i');
    assert("init_declaration"@[0] == 'i');
    assert("multiline_comment"@[0] == 'm');
    assert("protocol_declaration"@[0] == 'p');
    assert("struct_declaration"@[0] == 's');
}

/// The Swift table of declaration parents of identifiers: each listed kind gives its field, and
/// no other kind gives one.
pub proof fn lemma_swift_parent_table()
    ensures
        field_of_parent(TableSet::Swift, "function_declaration"@) == Some(SearchField::SymbolName),
        field_of_parent(TableSet::Swift, "class_declaration"@) == Some(SearchField::SymbolName),
        field_of_parent(TableSet::Swift, "struct_declaration"@) == Some(SearchField::SymbolName),
        field_of_parent(TableSet::Swift, "protocol_declaration"@) == Some(SearchField::SymbolName),
        field_of_parent(TableSet::Swift, "enum_declaration"@) == Some(SearchField::SymbolName),
        forall|kind: Seq<char>| #[trigger] field_of_parent(TableSet::Swift, kind) is Some ==> (kind == "function_declaration"@ || kind == "class_declaration"@ || kind == "struct_declaration"@ || kind == "protocol_declaration"@ || kind == "enum_declaration"@),
{
    reveal_strlit("function_declaration");
    reveal_strlit("class_declaration");
    reveal_strlit("struct_declaration");
    reveal_strlit("protocol_declaration");
    reveal_strlit("enum_declaration");
    assert("function_declaration"@.len() == 20);
    assert("class_declaration"@.len() == 17);
    assert("struct_declaration"@.len() == 18);
    assert("protocol_declaration"@.len() == 20);
    assert("enum_declaration"@.len() == 16);
    assert("function_declaration"@[0] == 'f');
    assert("protocol_declaration"@[0] == 'p');
}

/// The SQL table of node kinds: each listed kind gives its field, and
/// no other kind gives one.
pub proof fn lemma_sql_kind_table()
    ensures
        field_of_kind(TableSet::Sql, "create_table"@) == Some(SearchField::TypeDefinition),
        field_of_kind(TableSet::Sql, "create_view"@) == Some(SearchField::TypeDefinition),
        field_of_kind(TableSet::Sql, "create_function"@) == Some(SearchField::FunctionSignature),
        field_of_kind(TableSet::Sql, "create_procedure"@) == Some(SearchField::FunctionSignature),
        field_of_kind(TableSet::Sql, "select"@) == Some(SearchField::FunctionBody),
        field_of_kind(TableSet::Sql, "insert"@) == Some(SearchField::FunctionBody),
        field_of_kind(TableSet::Sql, "update"@) == Some(SearchField::FunctionBody),
        field_of_kind(TableSet::Sql, "delete"@) == Some(SearchField::FunctionBody),
        field_of_kind(TableSet::Sql, "comment"@) == Some(SearchField::Comment),
        field_of_kind(TableSet::Sql, "string"@) == Some(SearchField::StringLiteral),
        forall|kind: Seq<char>| #[trigger] field_of_kind(TableSet::Sql, kind) is Some ==> (kind == "create_table"@ || kind == "create_view"@ || kind == "create_function"@ || kind == "create_procedure"@ || kind == "select"@ || kind == "insert"@ || kind == "update"@ || kind == "delete"@ || kind == "comment"@ || kind == "string"@),
{
    reveal_strlit("create_table");
    reveal_strlit("create_view");
    reveal_strlit("create_function");
    reveal_strlit("create_procedure");
    reveal_strlit("select");
    reveal_strlit("insert");
    reveal_strlit("update");
    reveal_strlit("delete");
    reveal_strlit("comment");
    reveal_strlit("string");
    assert("create_table"@.len() == 12);
    assert("create_view"@.len() == 11);
    assert("create_function"@.len() == 15);
    assert("create_procedure"@.len() == 16);
    assert("select"@.len() == 6);
    assert("insert"@.len() == 6);
    assert("update"@.len() == 6);
    assert("delete"@.len() == 6);
    assert("comment"@.len() == 7);
    assert("string"@.len() == 6);
    assert("delete"@[0] == 'd');
    assert("insert"@[0] == 'i');
    assert("select"@[0] == 's');
    assert("select"@[1] == 'e');
    assert("string"@[0] == 's');
    assert("string"@[1] == 't');
    assert("update"@[0] == 'u');
}

/// The SQL table of declaration parents of identifiers: each listed kind gives its field, and
/// no other kind gives one.
pub proof fn lemma_sql_parent_table()
    ensures
        field_of_parent(TableSet::Sql, "create_table"@) == Some(SearchField::SymbolName),
        field_of_parent(TableSet::Sql, "create_function"@) == Some(SearchField::SymbolName),
        field_of_parent(TableSet::Sql, "column_definition"@) == Some(SearchField::SymbolName),
        forall|kind: Seq<char>| #[trigger] field_of_parent(TableSet::Sql, kind) is Some ==> (kind == "create_table"@ || kind == "create_function"@ || kind == "column_definition"@),
{
    reveal_strlit("create_table");
    reveal_strlit("create_function");
    reveal_strlit("column_definition");
    assert("create_table"@.len() == 12);
    assert("create_function"@.len() == 15);
    assert("column_definition"@.len() == 17);
}

} // verus!
