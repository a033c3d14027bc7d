//! Per-language node-kind tables: which syntax node kinds are fields, and
//! which parent kinds make an identifier a declared name.
use vstd::prelude::*;

use crate::cmd::str_eq;
use crate::types::query::SearchField;

verus! {

/// TypeScript and JavaScript: the field of a node of the given kind, if it is one.
pub open spec fn ts_field_map(kind: Seq<char>) -> Option<SearchField> {
    if kind == "type_alias_declaration"@ {
        Some(SearchField::TypeDefinition)
    } else if kind == "interface_declaration"@ {
        Some(SearchField::TypeDefinition)
    } else if kind == "enum_declaration"@ {
        Some(SearchField::TypeDefinition)
    } else if kind == "class_declaration"@ {
        Some(SearchField::TypeDefinition)
    } else if kind == "function_declaration"@ {
        Some(SearchField::FunctionSignature)
    } else if kind == "method_definition"@ {
        Some(SearchField::FunctionSignature)
    } else if kind == "arrow_function"@ {
        Some(SearchField::FunctionSignature)
    } else if kind == "import_statement"@ {
        Some(SearchField::ImportExport)
    } else if kind == "export_statement"@ {
        Some(SearchField::ImportExport)
    } else if kind == "statement_block"@ {
        Some(SearchField::FunctionBody)
    } else if kind == "comment"@ {
        Some(SearchField::Comment)
    } else if kind == "string"@ {
        Some(SearchField::StringLiteral)
    } else if kind == "template_string"@ {
        Some(SearchField::StringLiteral)
    } else {
        None
    }
}

/// Look up [`ts_field_map`].
pub fn ts_field_map_lookup(kind: &str) -> (r: Option<SearchField>)
    ensures
        r == ts_field_map(kind@),
{
    if str_eq(kind, "type_alias_declaration") {
        Some(SearchField::TypeDefinition)
    } else if str_eq(kind, "interface_declaration") {
        Some(SearchField::TypeDefinition)
    } else if str_eq(kind, "enum_declaration") {
        Some(SearchField::TypeDefinition)
    } else if str_eq(kind, "class_declaration") {
        Some(SearchField::TypeDefinition)
    } else if str_eq(kind, "function_declaration") {
        Some(SearchField::FunctionSignature)
    } else if str_eq(kind, "method_definition") {
        Some(SearchField::FunctionSignature)
    } else if str_eq(kind, "arrow_function") {
        Some(SearchField::FunctionSignature)
    } else if str_eq(kind, "import_statement") {
        Some(SearchField::ImportExport)
    } else if str_eq(kind, "export_statement") {
        Some(SearchField::ImportExport)
    } else if str_eq(kind, "statement_block") {
        Some(SearchField::FunctionBody)
    } else if str_eq(kind, "comment") {
        Some(SearchField::Comment)
    } else if str_eq(kind, "string") {
        Some(SearchField::StringLiteral)
    } else if str_eq(kind, "template_string") {
        Some(SearchField::StringLiteral)
    } else {
        None
    }
}

/// TypeScript and JavaScript: the field of an identifier whose parent has the given kind.
pub open spec fn ts_decl_parents(kind: Seq<char>) -> Option<SearchField> {
    if kind == "function_declaration"@ {
        Some(SearchField::SymbolName)
    } else if kind == "class_declaration"@ {
        Some(SearchField::SymbolName)
    } else if kind == "type_alias_declaration"@ {
        Some(SearchField::SymbolName)
    } else if kind == "variable_declarator"@ {
        Some(SearchField::SymbolName)
    } else if kind == "method_definition"@ {
        Some(SearchField::SymbolName)
    } else if kind == "interface_declaration"@ {
        Some(SearchField::SymbolName)
    } else if kind == "enum_declaration"@ {
        Some(SearchField::SymbolName)
    } else if kind == "import_specifier"@ {
        Some(SearchField::ImportExport)
    } else {
        None
    }
}

/// Look up [`ts_decl_parents`].
pub fn ts_decl_parents_lookup(kind: &str) -> (r: Option<SearchField>)
    ensures
        r == ts_decl_parents(kind@),
{
    if str_eq(kind, "function_declaration") {
        Some(SearchField::SymbolName)
    } else if str_eq(kind, "class_declaration") {
        Some(SearchField::SymbolName)
    } else if str_eq(kind, "type_alias_declaration") {
        Some(SearchField::SymbolName)
    } else if str_eq(kind, "variable_declarator") {
        Some(SearchField::SymbolName)
    } else if str_eq(kind, "method_definition") {
        Some(SearchField::SymbolName)
    } else if str_eq(kind, "interface_declaration") {
        Some(SearchField::SymbolName)
    } else if str_eq(kind, "enum_declaration") {
        Some(SearchField::SymbolName)
    } else if str_eq(kind, "import_specifier") {
        Some(SearchField::ImportExport)
    } else {
        None
    }
}

/// Python: the field of a node of the given kind, if it is one.
pub open spec fn py_field_map(kind: Seq<char>) -> Option<SearchField> {
    if kind == "class_definition"@ {
        Some(SearchField::TypeDefinition)
    } else if kind == "function_definition"@ {
        Some(SearchField::FunctionSignature)
    } else if kind == "decorated_definition"@ {
        Some(SearchField::FunctionSignature)
    } else if kind == "import_statement"@ {
        Some(SearchField::ImportExport)
    } else if kind == "import_from_statement"@ {
        Some(SearchField::ImportExport)
    } else if kind == "block"@ {
        Some(SearchField::FunctionBody)
    } else if kind == "comment"@ {
        Some(SearchField::Comment)
    } else if kind == "string"@ {
        Some(SearchField::StringLiteral)
    } else {
        None
    }
}

/// Look up [`py_field_map`].
pub fn py_field_map_lookup(kind: &str) -> (r: Option<SearchField>)
    ensures
        r == py_field_map(kind@),
{
    if str_eq(kind, "class_definition") {
        Some(SearchField::TypeDefinition)
    } else if str_eq(kind, "function_definition") {
        Some(SearchField::FunctionSignature)
    } else if str_eq(kind, "decorated_definition") {
        Some(SearchField::FunctionSignature)
    } else if str_eq(kind, "import_statement") {
        Some(SearchField::ImportExport)
    } else if str_eq(kind, "import_from_statement") {
        Some(SearchField::ImportExport)
    } else if str_eq(kind, "block") {
        Some(SearchField::FunctionBody)
    } else if str_eq(kind, "comment") {
        Some(SearchField::Comment)
    } else if str_eq(kind, "string") {
        Some(SearchField::StringLiteral)
    } else {
        None
    }
}

/// Python: the field of an identifier whose parent has the given kind.
pub open spec fn py_decl_parents(kind: Seq<char>) -> Option<SearchField> {
    if kind == "function_definition"@ {
        Some(SearchField::SymbolName)
    } else if kind == "class_definition"@ {
        Some(SearchField::SymbolName)
    } else if kind == "assignment"@ {
        Some(SearchField::SymbolName)
    } else {
        None
    }
}

/// Look up [`py_decl_parents`].
pub fn py_decl_parents_lookup(kind: &str) -> (r: Option<SearchField>)
    ensures
        r == py_decl_parents(kind@),
{
    if str_eq(kind, "function_definition") {
        Some(SearchField::SymbolName)
    } else if str_eq(kind, "class_definition") {
        Some(SearchField::SymbolName)
    } else if str_eq(kind, "assignment") {
        Some(SearchField::SymbolName)
    } else {
        None
    }
}

/// Rust: the field of a node of the given kind, if it is one.
pub open spec fn rs_field_map(kind: Seq<char>) -> Option<SearchField> {
    if kind == "struct_item"@ {
        Some(SearchField::TypeDefinition)
    } else if kind == "enum_item"@ {
        Some(SearchField::TypeDefinition)
    } else if kind == "type_item"@ {
        Some(SearchField::TypeDefinition)
    } else if kind == "trait_item"@ {
        Some(SearchField::TypeDefinition)
    } else if kind == "impl_item"@ {
        Some(SearchField::TypeDefinition)
    } else if kind == "function_item"@ {
        Some(SearchField::FunctionSignature)
    } else if kind == "function_signature_item"@ {
        Some(SearchField::FunctionSignature)
    } else if kind == "use_declaration"@ {
        Some(SearchField::ImportExport)
    } else if kind == "block"@ {
        Some(SearchField::FunctionBody)
    } else if kind == "line_comment"@ {
        Some(SearchField::Comment)
    } else if kind == "block_comment"@ {
        Some(SearchField::Comment)
    } else if kind == "string_literal"@ {
        Some(SearchField::StringLiteral)
    } else if kind == "raw_string_literal"@ {
        Some(SearchField::StringLiteral)
    } else {
        None
    }
}

/// Look up [`rs_field_map`].
pub fn rs_field_map_lookup(kind: &str) -> (r: Option<SearchField>)
    ensures
        r == rs_field_map(kind@),
{
    if str_eq(kind, "struct_item") {
        Some(SearchField::TypeDefinition)
    } else if str_eq(kind, "enum_item") {
        Some(SearchField::TypeDefinition)
    } else if str_eq(kind, "type_item") {
        Some(SearchField::TypeDefinition)
    } else if str_eq(kind, "trait_item") {
        Some(SearchField::TypeDefinition)
    } else if str_eq(kind, "impl_item") {
        Some(SearchField::TypeDefinition)
    } else if str_eq(kind, "function_item") {
        Some(SearchField::FunctionSignature)
    } else if str_eq(kind, "function_signature_item") {
        Some(SearchField::FunctionSignature)
    } else if str_eq(kind, "use_declaration") {
        Some(SearchField::ImportExport)
    } else if str_eq(kind, "block") {
        Some(SearchField::FunctionBody)
    } else if str_eq(kind, "line_comment") {
        Some(SearchField::Comment)
    } else if str_eq(kind, "block_comment") {
        Some(SearchField::Comment)
    } else if str_eq(kind, "string_literal") {
        Some(SearchField::StringLiteral)
    } else if str_eq(kind, "raw_string_literal") {
        Some(SearchField::StringLiteral)
    } else {
        None
    }
}

/// Rust: the field of an identifier whose parent has the given kind.
pub open spec fn rs_decl_parents(kind: Seq<char>) -> Option<SearchField> {
    if kind == "function_item"@ {
        Some(SearchField::SymbolName)
    } else if kind == "struct_item"@ {
        Some(SearchField::SymbolName)
    } else if kind == "enum_item"@ {
        Some(SearchField::SymbolName)
    } else if kind == "trait_item"@ {
        Some(SearchField::SymbolName)
    } else if kind == "type_item"@ {
        Some(SearchField::SymbolName)
    } else if kind == "const_item"@ {
        Some(SearchField::SymbolName)
    } else if kind == "static_item"@ {
        Some(SearchField::SymbolName)
    } else if kind == "mod_item"@ {
        Some(SearchField::SymbolName)
    } else {
        None
    }
}

/// Look up [`rs_decl_parents`].
pub fn rs_decl_parents_lookup(kind: &str) -> (r: Option<SearchField>)
    ensures
        r == rs_decl_parents(kind@),
{
    if str_eq(kind, "function_item") {
        Some(SearchField::SymbolName)
    } else if str_eq(kind, "struct_item") {
        Some(SearchField::SymbolName)
    } else if str_eq(kind, "enum_item") {
        Some(SearchField::SymbolName)
    } else if str_eq(kind, "trait_item") {
        Some(SearchField::SymbolName)
    } else if str_eq(kind, "type_item") {
        Some(SearchField::SymbolName)
    } else if str_eq(kind, "const_item") {
        Some(SearchField::SymbolName)
    } else if str_eq(kind, "static_item") {
        Some(SearchField::SymbolName)
    } else if str_eq(kind, "mod_item") {
        Some(SearchField::SymbolName)
    } else {
        None
    }
}

/// Go: the field of a node of the given kind, if it is one.
pub open spec fn go_field_map(kind: Seq<char>) -> Option<SearchField> {
    if kind == "type_declaration"@ {
        Some(SearchField::TypeDefinition)
    } else if kind == "type_spec"@ {
        Some(SearchField::TypeDefinition)
    } else if kind == "function_declaration"@ {
        Some(SearchField::FunctionSignature)
    } else if kind == "method_declaration"@ {
        Some(SearchField::FunctionSignature)
    } else if kind == "import_declaration"@ {
        Some(SearchField::ImportExport)
    } else if kind == "block"@ {
        Some(SearchField::FunctionBody)
    } else if kind == "comment"@ {
        Some(SearchField::Comment)
    } else if kind == "interpreted_string_literal"@ {
        Some(SearchField::StringLiteral)
    } else if kind == "raw_string_literal"@ {
        Some(SearchField::StringLiteral)
    } else {
        None
    }
}

/// Look up [`go_field_map`].
pub fn go_field_map_lookup(kind: &str) -> (r: Option<SearchField>)
    ensures
        r == go_field_map(kind@),
{
    if str_eq(kind, "type_declaration") {
        Some(SearchField::TypeDefinition)
    } else if str_eq(kind, "type_spec") {
        Some(SearchField::TypeDefinition)
    } else if str_eq(kind, "function_declaration") {
        Some(SearchField::FunctionSignature)
    } else if str_eq(kind, "method_declaration") {
        Some(SearchField::FunctionSignature)
    } else if str_eq(kind, "import_declaration") {
        Some(SearchField::ImportExport)
    } else if str_eq(kind, "block") {
        Some(SearchField::FunctionBody)
    } else if str_eq(kind, "comment") {
        Some(SearchField::Comment)
    } else if str_eq(kind, "interpreted_string_literal") {
        Some(SearchField::StringLiteral)
    } else if str_eq(kind, "raw_string_literal") {
        Some(SearchField::StringLiteral)
    } else {
        None
    }
}

/// Go: the field of an identifier whose parent has the given kind.
pub open spec fn go_decl_parents(kind: Seq<char>) -> Option<SearchField> {
    if kind == "function_declaration"@ {
        Some(SearchField::SymbolName)
    } else if kind == "method_declaration"@ {
        Some(SearchField::SymbolName)
    } else if kind == "type_spec"@ {
        Some(SearchField::SymbolName)
    } else if kind == "const_spec"@ {
        Some(SearchField::SymbolName)
    } else if kind == "var_spec"@ {
        Some(SearchField::SymbolName)
    } else {
        None
    }
}

/// Look up [`go_decl_parents`].
pub fn go_decl_parents_lookup(kind: &str) -> (r: Option<SearchField>)
    ensures
        r == go_decl_parents(kind@),
{
    if str_eq(kind, "function_declaration") {
        Some(SearchField::SymbolName)
    } else if str_eq(kind, "method_declaration") {
        Some(SearchField::SymbolName)
    } else if str_eq(kind, "type_spec") {
        Some(SearchField::SymbolName)
    } else if str_eq(kind, "const_spec") {
        Some(SearchField::SymbolName)
    } else if str_eq(kind, "var_spec") {
        Some(SearchField::SymbolName)
    } else {
        None
    }
}

/// Java: the field of a node of the given kind, if it is one.
pub open spec fn java_field_map(kind: Seq<char>) -> Option<SearchField> {
    if kind == "class_declaration"@ {
        Some(SearchField::TypeDefinition)
    } else if kind == "interface_declaration"@ {
        Some(SearchField::TypeDefinition)
    } else if kind == "enum_declaration"@ {
        Some(SearchField::TypeDefinition)
    } else if kind == "annotation_type_declaration"@ {
        Some(SearchField::TypeDefinition)
    } else if kind == "method_declaration"@ {
        Some(SearchField::FunctionSignature)
    } else if kind == "constructor_declaration"@ {
        Some(SearchField::FunctionSignature)
    } else if kind == "import_declaration"@ {
        Some(SearchField::ImportExport)
    } else if kind == "block"@ {
        Some(SearchField::FunctionBody)
    } else if kind == "line_comment"@ {
        Some(SearchField::Comment)
    } else if kind == "block_comment"@ {
        Some(SearchField::Comment)
    } else if kind == "string_literal"@ {
        Some(SearchField::StringLiteral)
    } else {
        None
    }
}

/// Look up [`java_field_map`].
pub fn java_field_map_lookup(kind: &str) -> (r: Option<SearchField>)
    ensures
        r == java_field_map(kind@),
{
    if str_eq(kind, "class_declaration") {
        Some(SearchField::TypeDefinition)
    } else if str_eq(kind, "interface_declaration") {
        Some(SearchField::TypeDefinition)
    } else if str_eq(kind, "enum_declaration") {
        Some(SearchField::TypeDefinition)
    } else if str_eq(kind, "annotation_type_declaration") {
        Some(SearchField::TypeDefinition)
    } else if str_eq(kind, "method_declaration") {
        Some(SearchField::FunctionSignature)
    } else if str_eq(kind, "constructor_declaration") {
        Some(SearchField::FunctionSignature)
    } else if str_eq(kind, "import_declaration") {
        Some(SearchField::ImportExport)
    } else if str_eq(kind, "block") {
        Some(SearchField::FunctionBody)
    } else if str_eq(kind, "line_comment") {
        Some(SearchField::Comment)
    } else if str_eq(kind, "block_comment") {
        Some(SearchField::Comment)
    } else if str_eq(kind, "string_literal") {
        Some(SearchField::StringLiteral)
    } else {
        None
    }
}

/// Java: the field of an identifier whose parent has the given kind.
pub open spec fn java_decl_parents(kind: Seq<char>) -> Option<SearchField> {
    if kind == "class_declaration"@ {
        Some(SearchField::SymbolName)
    } else if kind == "method_declaration"@ {
        Some(SearchField::SymbolName)
    } else if kind == "interface_declaration"@ {
        Some(SearchField::SymbolName)
    } else if kind == "enum_declaration"@ {
        Some(SearchField::SymbolName)
    } else if kind == "variable_declarator"@ {
        Some(SearchField::SymbolName)
    } else {
        None
    }
}

/// Look up [`java_decl_parents`].
pub fn java_decl_parents_lookup(kind: &str) -> (r: Option<SearchField>)
    ensures
        r == java_decl_parents(kind@),
{
    if str_eq(kind, "class_declaration") {
        Some(SearchField::SymbolName)
    } else if str_eq(kind, "method_declaration") {
        Some(SearchField::SymbolName)
    } else if str_eq(kind, "interface_declaration") {
        Some(SearchField::SymbolName)
    } else if str_eq(kind, "enum_declaration") {
        Some(SearchField::SymbolName)
    } else if str_eq(kind, "variable_declarator") {
        Some(SearchField::SymbolName)
    } else {
        None
    }
}

/// C: the field of a node of the given kind, if it is one.
pub open spec fn c_field_map(kind: Seq<char>) -> Option<SearchField> {
    if kind == "struct_specifier"@ {
        Some(SearchField::TypeDefinition)
    } else if kind == "enum_specifier"@ {
        Some(SearchField::TypeDefinition)
    } else if kind == "type_definition"@ {
        Some(SearchField::TypeDefinition)
    } else if kind == "union_specifier"@ {
        Some(SearchField::TypeDefinition)
    } else if kind == "function_definition"@ {
        Some(SearchField::FunctionSignature)
    } else if kind == "declaration"@ {
        Some(SearchField::FunctionSignature)
    } else if kind == "preproc_include"@ {
        Some(SearchField::ImportExport)
    } else if kind == "compound_statement"@ {
        Some(SearchField::FunctionBody)
    } else if kind == "comment"@ {
        Some(SearchField::Comment)
    } else if kind == "string_literal"@ {
        Some(SearchField::StringLiteral)
    } else {
        None
    }
}

/// Look up [`c_field_map`].
pub fn c_field_map_lookup(kind: &str) -> (r: Option<SearchField>)
    ensures
        r == c_field_map(kind@),
{
    if str_eq(kind, "struct_specifier") {
        Some(SearchField::TypeDefinition)
    } else if str_eq(kind, "enum_specifier") {
        Some(SearchField::TypeDefinition)
    } else if str_eq(kind, "type_definition") {
        Some(SearchField::TypeDefinition)
    } else if str_eq(kind, "union_specifier") {
        Some(SearchField::TypeDefinition)
    } else if str_eq(kind, "function_definition") {
        Some(SearchField::FunctionSignature)
    } else if str_eq(kind, "declaration") {
        Some(SearchField::FunctionSignature)
    } else if str_eq(kind, "preproc_include") {
        Some(SearchField::ImportExport)
    } else if str_eq(kind, "compound_statement") {
        Some(SearchField::FunctionBody)
    } else if str_eq(kind, "comment") {
        Some(SearchField::Comment)
    } else if str_eq(kind, "string_literal") {
        Some(SearchField::StringLiteral)
    } else {
        None
    }
}

/// C: the field of an identifier whose parent has the given kind.
pub open spec fn c_decl_parents(kind: Seq<char>) -> Option<SearchField> {
    if kind == "function_definition"@ {
        Some(SearchField::SymbolName)
    } else if kind == "function_declarator"@ {
        Some(SearchField::SymbolName)
    } else if kind == "struct_specifier"@ {
        Some(SearchField::SymbolName)
    } else if kind == "enum_specifier"@ {
        Some(SearchField::SymbolName)
    } else if kind == "type_definition"@ {
        Some(SearchField::SymbolName)
    } else if kind == "init_declarator"@ {
        Some(SearchField::SymbolName)
    } else {
        None
    }
}

/// Look up [`c_decl_parents`].
pub fn c_decl_parents_lookup(kind: &str) -> (r: Option<SearchField>)
    ensures
        r == c_decl_parents(kind@),
{
    if str_eq(kind, "function_definition") {
        Some(SearchField::SymbolName)
    } else if str_eq(kind, "function_declarator") {
        Some(SearchField::SymbolName)
    } else if str_eq(kind, "struct_specifier") {
        Some(SearchField::SymbolName)
    } else if str_eq(kind, "enum_specifier") {
        Some(SearchField::SymbolName)
    } else if str_eq(kind, "type_definition") {
        Some(SearchField::SymbolName)
    } else if str_eq(kind, "init_declarator") {
        Some(SearchField::SymbolName)
    } else {
        None
    }
}

/// C++: the field of a node of the given kind, if it is one.
pub open spec fn cpp_field_map(kind: Seq<char>) -> Option<SearchField> {
    if kind == "struct_specifier"@ {
        Some(SearchField::TypeDefinition)
    } else if kind == "enum_specifier"@ {
        Some(SearchField::TypeDefinition)
    } else if kind == "type_definition"@ {
        Some(SearchField::TypeDefinition)
    } else if kind == "union_specifier"@ {
        Some(SearchField::TypeDefinition)
    } else if kind == "class_specifier"@ {
        Some(SearchField::TypeDefinition)
    } else if kind == "namespace_definition"@ {
        Some(SearchField::TypeDefinition)
    } else if kind == "template_declaration"@ {
        Some(SearchField::TypeDefinition)
    } else if kind == "function_definition"@ {
        Some(SearchField::FunctionSignature)
    } else if kind == "declaration"@ {
        Some(SearchField::FunctionSignature)
    } else if kind == "preproc_include"@ {
        Some(SearchField::ImportExport)
    } else if kind == "using_declaration"@ {
        Some(SearchField::ImportExport)
    } else if kind == "compound_statement"@ {
        Some(SearchField::FunctionBody)
    } else if kind == "comment"@ {
        Some(SearchField::Comment)
    } else if kind == "string_literal"@ {
        Some(SearchField::StringLiteral)
    } else {
        None
    }
}

/// Look up [`cpp_field_map`].
pub fn cpp_field_map_lookup(kind: &str) -> (r: Option<SearchField>)
    ensures
        r == cpp_field_map(kind@),
{
    if str_eq(kind, "struct_specifier") {
        Some(SearchField::TypeDefinition)
    } else if str_eq(kind, "enum_specifier") {
        Some(SearchField::TypeDefinition)
    } else if str_eq(kind, "type_definition") {
        Some(SearchField::TypeDefinition)
    } else if str_eq(kind, "union_specifier") {
        Some(SearchField::TypeDefinition)
    } else if str_eq(kind, "class_specifier") {
        Some(SearchField::TypeDefinition)
    } else if str_eq(kind, "namespace_definition") {
        Some(SearchField::TypeDefinition)
    } else if str_eq(kind, "template_declaration") {
        Some(SearchField::TypeDefinition)
    } else if str_eq(kind, "function_definition") {
        Some(SearchField::FunctionSignature)
    } else if str_eq(kind, "declaration") {
        Some(SearchField::FunctionSignature)
    } else if str_eq(kind, "preproc_include") {
        Some(SearchField::ImportExport)
    } else if str_eq(kind, "using_declaration") {
        Some(SearchField::ImportExport)
    } else if str_eq(kind, "compound_statement") {
        Some(SearchField::FunctionBody)
    } else if str_eq(kind, "comment") {
        Some(SearchField::Comment)
    } else if str_eq(kind, "string_literal") {
        Some(SearchField::StringLiteral)
    } else {
        None
    }
}

/// C++: the field of an identifier whose parent has the given kind.
pub open spec fn cpp_decl_parents(kind: Seq<char>) -> Option<SearchField> {
    if kind == "function_definition"@ {
        Some(SearchField::SymbolName)
    } else if kind == "function_declarator"@ {
        Some(SearchField::SymbolName)
    } else if kind == "struct_specifier"@ {
        Some(SearchField::SymbolName)
    } else if kind == "enum_specifier"@ {
        Some(SearchField::SymbolName)
    } else if kind == "type_definition"@ {
        Some(SearchField::SymbolName)
    } else if kind == "init_declarator"@ {
        Some(SearchField::SymbolName)
    } else if kind == "class_specifier"@ {
        Some(SearchField::SymbolName)
    } else if kind == "namespace_definition"@ {
        Some(SearchField::SymbolName)
    } else {
        None
    }
}

/// Look up [`cpp_decl_parents`].
pub fn cpp_decl_parents_lookup(kind: &str) -> (r: Option<SearchField>)
    ensures
        r == cpp_decl_parents(kind@),
{
    if str_eq(kind, "function_definition") {
        Some(SearchField::SymbolName)
    } else if str_eq(kind, "function_declarator") {
        Some(SearchField::SymbolName)
    } else if str_eq(kind, "struct_specifier") {
        Some(SearchField::SymbolName)
    } else if str_eq(kind, "enum_specifier") {
        Some(SearchField::SymbolName)
    } else if str_eq(kind, "type_definition") {
        Some(SearchField::SymbolName)
    } else if str_eq(kind, "init_declarator") {
        Some(SearchField::SymbolName)
    } else if str_eq(kind, "class_specifier") {
        Some(SearchField::SymbolName)
    } else if str_eq(kind, "namespace_definition") {
        Some(SearchField::SymbolName)
    } else {
        None
    }
}

/// C#: the field of a node of the given kind, if it is one.
pub open spec fn cs_field_map(kind: Seq<char>) -> Option<SearchField> {
    if kind == "class_declaration"@ {
        Some(SearchField::TypeDefinition)
    } else if kind == "struct_declaration"@ {
        Some(SearchField::TypeDefinition)
    } else if kind == "interface_declaration"@ {
        Some(SearchField::TypeDefinition)
    } else if kind == "enum_declaration"@ {
        Some(SearchField::TypeDefinition)
    } else if kind == "method_declaration"@ {
        Some(SearchField::FunctionSignature)
    } else if kind == "constructor_declaration"@ {
        Some(SearchField::FunctionSignature)
    } else if kind == "using_directive"@ {
        Some(SearchField::ImportExport)
    } else if kind == "block"@ {
        Some(SearchField::FunctionBody)
    } else if kind == "comment"@ {
        Some(SearchField::Comment)
    } else if kind == "string_literal"@ {
        Some(SearchField::StringLiteral)
    } else if kind == "verbatim_string_literal"@ {
        Some(SearchField::StringLiteral)
    } else {
        None
    }
}

/// Look up [`cs_field_map`].
pub fn cs_field_map_lookup(kind: &str) -> (r: Option<SearchField>)
    ensures
        r == cs_field_map(kind@),
{
    if str_eq(kind, "class_declaration") {
        Some(SearchField::TypeDefinition)
    } else if str_eq(kind, "struct_declaration") {
        Some(SearchField::TypeDefinition)
    } else if str_eq(kind, "interface_declaration") {
        Some(SearchField::TypeDefinition)
    } else if str_eq(kind, "enum_declaration") {
        Some(SearchField::TypeDefinition)
    } else if str_eq(kind, "method_declaration") {
        Some(SearchField::FunctionSignature)
    } else if str_eq(kind, "constructor_declaration") {
        Some(SearchField::FunctionSignature)
    } else if str_eq(kind, "using_directive") {
        Some(SearchField::ImportExport)
    } else if str_eq(kind, "block") {
        Some(SearchField::FunctionBody)
    } else if str_eq(kind, "comment") {
        Some(SearchField::Comment)
    } else if str_eq(kind, "string_literal") {
        Some(SearchField::StringLiteral)
    } else if str_eq(kind, "verbatim_string_literal") {
        Some(SearchField::StringLiteral)
    } else {
        None
    }
}

/// C#: the field of an identifier whose parent has the given kind.
pub open spec fn cs_decl_parents(kind: Seq<char>) -> Option<SearchField> {
    if kind == "class_declaration"@ {
        Some(SearchField::SymbolName)
    } else if kind == "struct_declaration"@ {
        Some(SearchField::SymbolName)
    } else if kind == "method_declaration"@ {
        Some(SearchField::SymbolName)
    } else if kind == "interface_declaration"@ {
        Some(SearchField::SymbolName)
    } else if kind == "variable_declarator"@ {
        Some(SearchField::SymbolName)
    } else {
        None
    }
}

/// Look up [`cs_decl_parents`].
pub fn cs_decl_parents_lookup(kind: &str) -> (r: Option<SearchField>)
    ensures
        r == cs_decl_parents(kind@),
{
    if str_eq(kind, "class_declaration") {
        Some(SearchField::SymbolName)
    } else if str_eq(kind, "struct_declaration") {
        Some(SearchField::SymbolName)
    } else if str_eq(kind, "method_declaration") {
        Some(SearchField::SymbolName)
    } else if str_eq(kind, "interface_declaration") {
        Some(SearchField::SymbolName)
    } else if str_eq(kind, "variable_declarator") {
        Some(SearchField::SymbolName)
    } else {
        None
    }
}

/// Ruby: the field of a node of the given kind, if it is one.
pub open spec fn rb_field_map(kind: Seq<char>) -> Option<SearchField> {
    if kind == "class"@ {
        Some(SearchField::TypeDefinition)
    } else if kind == "module"@ {
        Some(SearchField::TypeDefinition)
    } else if kind == "method"@ {
        Some(SearchField::FunctionSignature)
    } else if kind == "singleton_method"@ {
        Some(SearchField::FunctionSignature)
    } else if kind == "call"@ {
        Some(SearchField::ImportExport)
    } else if kind == "body_statement"@ {
        Some(SearchField::FunctionBody)
    } else if kind == "comment"@ {
        Some(SearchField::Comment)
    } else if kind == "string"@ {
        Some(SearchField::StringLiteral)
    } else {
        None
    }
}

/// Look up [`rb_field_map`].
pub fn rb_field_map_lookup(kind: &str) -> (r: Option<SearchField>)
    ensures
        r == rb_field_map(kind@),
{
    if str_eq(kind, "class") {
        Some(SearchField::TypeDefinition)
    } else if str_eq(kind, "module") {
        Some(SearchField::TypeDefinition)
    } else if str_eq(kind, "method") {
        Some(SearchField::FunctionSignature)
    } else if str_eq(kind, "singleton_method") {
        Some(SearchField::FunctionSignature)
    } else if str_eq(kind, "call") {
        Some(SearchField::ImportExport)
    } else if str_eq(kind, "body_statement") {
        Some(SearchField::FunctionBody)
    } else if str_eq(kind, "comment") {
        Some(SearchField::Comment)
    } else if str_eq(kind, "string") {
        Some(SearchField::StringLiteral)
    } else {
        None
    }
}

/// Ruby: the field of an identifier whose parent has the given kind.
pub open spec fn rb_decl_parents(kind: Seq<char>) -> Option<SearchField> {
    if kind == "class"@ {
        Some(SearchField::SymbolName)
    } else if kind == "module"@ {
        Some(SearchField::SymbolName)
    } else if kind == "method"@ {
        Some(SearchField::SymbolName)
    } else if kind == "assignment"@ {
        Some(SearchField::SymbolName)
    } else {
        None
    }
}

/// Look up [`rb_decl_parents`].
pub fn rb_decl_parents_lookup(kind: &str) -> (r: Option<SearchField>)
    ensures
        r == rb_decl_parents(kind@),
{
    if str_eq(kind, "class") {
        Some(SearchField::SymbolName)
    } else if str_eq(kind, "module") {
        Some(SearchField::SymbolName)
    } else if str_eq(kind, "method") {
        Some(SearchField::SymbolName)
    } else if str_eq(kind, "assignment") {
        Some(SearchField::SymbolName)
    } else {
        None
    }
}

/// Kotlin: the field of a node of the given kind, if it is one.
pub open spec fn kt_field_map(kind: Seq<char>) -> Option<SearchField> {
    if kind == "class_declaration"@ {
        Some(SearchField::TypeDefinition)
    } else if kind == "object_declaration"@ {
        Some(SearchField::TypeDefinition)
    } else if kind == "type_alias"@ {
        Some(SearchField::TypeDefinition)
    } else if kind == "function_declaration"@ {
        Some(SearchField::FunctionSignature)
    } else if kind == "import_header"@ {
        Some(SearchField::ImportExport)
    } else if kind == "function_body"@ {
        Some(SearchField::FunctionBody)
    } else if kind == "line_comment"@ {
        Some(SearchField::Comment)
    } else if kind == "multiline_comment"@ {
        Some(SearchField::Comment)
    } else if kind == "string_literal"@ {
        Some(SearchField::StringLiteral)
    } else {
        None
    }
}

/// Look up [`kt_field_map`].
pub fn kt_field_map_lookup(kind: &str) -> (r: Option<SearchField>)
    ensures
        r == kt_field_map(kind@),
{
    if str_eq(kind, "class_declaration") {
        Some(SearchField::TypeDefinition)
    } else if str_eq(kind, "object_declaration") {
        Some(SearchField::TypeDefinition)
    } else if str_eq(kind, "type_alias") {
        Some(SearchField::TypeDefinition)
    } else if str_eq(kind, "function_declaration") {
        Some(SearchField::FunctionSignature)
    } else if str_eq(kind, "import_header") {
        Some(SearchField::ImportExport)
    } else if str_eq(kind, "function_body") {
        Some(SearchField::FunctionBody)
    } else if str_eq(kind, "line_comment") {
        Some(SearchField::Comment)
    } else if str_eq(kind, "multiline_comment") {
        Some(SearchField::Comment)
    } else if str_eq(kind, "string_literal") {
        Some(SearchField::StringLiteral)
    } else {
        None
    }
}

/// Kotlin: the field of an identifier whose parent has the given kind.
pub open spec fn kt_decl_parents(kind: Seq<char>) -> Option<SearchField> {
    if kind == "function_declaration"@ {
        Some(SearchField::SymbolName)
    } else if kind == "class_declaration"@ {
        Some(SearchField::SymbolName)
    } else if kind == "object_declaration"@ {
        Some(SearchField::SymbolName)
    } else if kind == "property_declaration"@ {
        Some(SearchField::SymbolName)
    } else {
        None
    }
}

/// Look up [`kt_decl_parents`].
pub fn kt_decl_parents_lookup(kind: &str) -> (r: Option<SearchField>)
    ensures
        r == kt_decl_parents(kind@),
{
    if str_eq(kind, "function_declaration") {
        Some(SearchField::SymbolName)
    } else if str_eq(kind, "class_declaration") {
        Some(SearchField::SymbolName)
    } else if str_eq(kind, "object_declaration") {
        Some(SearchField::SymbolName)
    } else if str_eq(kind, "property_declaration") {
        Some(SearchField::SymbolName)
    } else {
        None
    }
}

/// Swift: the field of a node of the given kind, if it is one.
pub open spec fn swift_field_map(kind: Seq<char>) -> Option<SearchField> {
    if kind == "class_declaration"@ {
        Some(SearchField::TypeDefinition)
    } else if kind == "struct_declaration"@ {
        Some(SearchField::TypeDefinition)
    } else if kind == "protocol_declaration"@ {
        Some(SearchField::TypeDefinition)
    } else if kind == "enum_declaration"@ {
        Some(SearchField::TypeDefinition)
    } else if kind == "function_declaration"@ {
        Some(SearchField::FunctionSignature)
    } else if kind == "init_declaration"@ {
        Some(SearchField::FunctionSignature)
    } else if kind == "import_declaration"@ {
        Some(SearchField::ImportExport)
    } else if kind == "code_block"@ {
        Some(SearchField::FunctionBody)
    } else if kind == "comment"@ {
        Some(SearchField::Comment)
    } else if kind == "multiline_comment"@ {
        Some(SearchField::Comment)
    } else if kind == "line_string_literal"@ {
        Some(SearchField::StringLiteral)
    } else {
        None
    }
}

/// Look up [`swift_field_map`].
pub fn swift_field_map_lookup(kind: &str) -> (r: Option<SearchField>)
    ensures
        r == swift_field_map(kind@),
{
    if str_eq(kind, "class_declaration") {
        Some(SearchField::TypeDefinition)
    } else if str_eq(kind, "struct_declaration") {
        Some(SearchField::TypeDefinition)
    } else if str_eq(kind, "protocol_declaration") {
        Some(SearchField::TypeDefinition)
    } else if str_eq(kind, "enum_declaration") {
        Some(SearchField::TypeDefinition)
    } else if str_eq(kind, "function_declaration") {
        Some(SearchField::FunctionSignature)
    } else if str_eq(kind, "init_declaration") {
        Some(SearchField::FunctionSignature)
    } else if str_eq(kind, "import_declaration") {
        Some(SearchField::ImportExport)
    } else if str_eq(kind, "code_block") {
        Some(SearchField::FunctionBody)
    } else if str_eq(kind, "comment") {
        Some(SearchField::Comment)
    } else if str_eq(kind, "multiline_comment") {
        Some(SearchField::Comment)
    } else if str_eq(kind, "line_string_literal") {
        Some(SearchField::StringLiteral)
    } else {
        None
    }
}

/// Swift: the field of an identifier whose parent has the given kind.
pub open spec fn swift_decl_parents(kind: Seq<char>) -> Option<SearchField> {
    if kind == "function_declaration"@ {
        Some(SearchField::SymbolName)
    } else if kind == "class_declaration"@ {
        Some(SearchField::SymbolName)
    } else if kind == "struct_declaration"@ {
        Some(SearchField::SymbolName)
    } else if kind == "protocol_declaration"@ {
        Some(SearchField::SymbolName)
    } else if kind == "enum_declaration"@ {
        Some(SearchField::SymbolName)
    } else {
        None
    }
}

/// Look up [`swift_decl_parents`].
pub fn swift_decl_parents_lookup(kind: &str) -> (r: Option<SearchField>)
    ensures
        r == swift_decl_parents(kind@),
{
    if str_eq(kind, "function_declaration") {
        Some(SearchField::SymbolName)
    } else if str_eq(kind, "class_declaration") {
        Some(SearchField::SymbolName)
    } else if str_eq(kind, "struct_declaration") {
        Some(SearchField::SymbolName)
    } else if str_eq(kind, "protocol_declaration") {
        Some(SearchField::SymbolName)
    } else if str_eq(kind, "enum_declaration") {
        Some(SearchField::SymbolName)
    } else {
        None
    }
}

/// SQL: the field of a node of the given kind, if it is one.
pub open spec fn sql_field_map(kind: Seq<char>) -> Option<SearchField> {
    if kind == "create_table"@ {
        Some(SearchField::TypeDefinition)
    } else if kind == "create_view"@ {
        Some(SearchField::TypeDefinition)
    } else if kind == "create_function"@ {
        Some(SearchField::FunctionSignature)
    } else if kind == "create_procedure"@ {
        Some(SearchField::FunctionSignature)
    } else if kind == "select"@ {
        Some(SearchField::FunctionBody)
    } else if kind == "insert"@ {
        Some(SearchField::FunctionBody)
    } else if kind == "update"@ {
        Some(SearchField::FunctionBody)
    } else if kind == "delete"@ {
        Some(SearchField::FunctionBody)
    } else if kind == "comment"@ {
        Some(SearchField::Comment)
    } else if kind == "string"@ {
        Some(SearchField::StringLiteral)
    } else {
        None
    }
}

/// Look up [`sql_field_map`].
pub fn sql_field_map_lookup(kind: &str) -> (r: Option<SearchField>)
    ensures
        r == sql_field_map(kind@),
{
    if str_eq(kind, "create_table") {
        Some(SearchField::TypeDefinition)
    } else if str_eq(kind, "create_view") {
        Some(SearchField::TypeDefinition)
    } else if str_eq(kind, "create_function") {
        Some(SearchField::FunctionSignature)
    } else if str_eq(kind, "create_procedure") {
        Some(SearchField::FunctionSignature)
    } else if str_eq(kind, "select") {
        Some(SearchField::FunctionBody)
    } else if str_eq(kind, "insert") {
        Some(SearchField::FunctionBody)
    } else if str_eq(kind, "update") {
        Some(SearchField::FunctionBody)
    } else if str_eq(kind, "delete") {
        Some(SearchField::FunctionBody)
    } else if str_eq(kind, "comment") {
        Some(SearchField::Comment)
    } else if str_eq(kind, "string") {
        Some(SearchField::StringLiteral)
    } else {
        None
    }
}

/// SQL: the field of an identifier whose parent has the given kind.
pub open spec fn sql_decl_parents(kind: Seq<char>) -> Option<SearchField> {
    if kind == "create_table"@ {
        Some(SearchField::SymbolName)
    } else if kind == "create_function"@ {
        Some(SearchField::SymbolName)
    } else if kind == "column_definition"@ {
        Some(SearchField::SymbolName)
    } else {
        None
    }
}

/// Look up [`sql_decl_parents`].
pub fn sql_decl_parents_lookup(kind: &str) -> (r: Option<SearchField>)
    ensures
        r == sql_decl_parents(kind@),
{
    if str_eq(kind, "create_table") {
        Some(SearchField::SymbolName)
    } else if str_eq(kind, "create_function") {
        Some(SearchField::SymbolName)
    } else if str_eq(kind, "column_definition") {
        Some(SearchField::SymbolName)
    } else {
        None
    }
}

} // verus!
