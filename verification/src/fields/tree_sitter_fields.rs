//! Table-driven field classification of syntax tree nodes.
//!
//! A node is classified by its kind through the language's field table;
//! an identifier node (`identifier`, `type_identifier`,
//! `property_identifier`) is classified by its parent's kind through the
//! declaration table, so that only names being declared are indexed.
//! Parsing happens before the tree reaches this module, which receives the
//! nodes in pre-order with their depth and their parent's kind.
use std::ops::Range;
use vstd::prelude::*;

use crate::cmd::str_eq;
use crate::fields::markdown_fields::regions_view;
use crate::types::query::SearchField;

use super::tree_sitter_tables::{
    ts_field_map,
    ts_field_map_lookup,
    ts_decl_parents,
    ts_decl_parents_lookup,
    py_field_map,
    py_field_map_lookup,
    py_decl_parents,
    py_decl_parents_lookup,
    rs_field_map,
    rs_field_map_lookup,
    rs_decl_parents,
    rs_decl_parents_lookup,
    go_field_map,
    go_field_map_lookup,
    go_decl_parents,
    go_decl_parents_lookup,
    java_field_map,
    java_field_map_lookup,
    java_decl_parents,
    java_decl_parents_lookup,
    c_field_map,
    c_field_map_lookup,
    c_decl_parents,
    c_decl_parents_lookup,
    cpp_field_map,
    cpp_field_map_lookup,
    cpp_decl_parents,
    cpp_decl_parents_lookup,
    cs_field_map,
    cs_field_map_lookup,
    cs_decl_parents,
    cs_decl_parents_lookup,
    rb_field_map,
    rb_field_map_lookup,
    rb_decl_parents,
    rb_decl_parents_lookup,
    kt_field_map,
    kt_field_map_lookup,
    kt_decl_parents,
    kt_decl_parents_lookup,
    swift_field_map,
    swift_field_map_lookup,
    swift_decl_parents,
    swift_decl_parents_lookup,
    sql_field_map,
    sql_field_map_lookup,
    sql_decl_parents,
    sql_decl_parents_lookup,
};

verus! {

/// Languages whose files are classified into fields.
#[derive(Debug, Clone, Copy, PartialEq, Eq, Structural)]
pub enum Language {
    TypeScript,
    JavaScript,
    Python,
    Rust,
    Go,
    Java,
    C,
    Cpp,
    CSharp,
    Ruby,
    Kotlin,
    Swift,
    Sql,
    Json,
    Yaml,
    Toml,
    Markdown,
}

/// Which pair of tables a language uses.
#[derive(Debug, Clone, Copy, PartialEq, Eq, Structural)]
pub enum TableSet {
    TypeScript,
    Python,
    Rust,
    Go,
    Java,
    C,
    Cpp,
    CSharp,
    Ruby,
    Kotlin,
    Swift,
    Sql,
}

/// The tables of a language: JavaScript shares TypeScript's; JSON, YAML,
/// TOML and Markdown have none (they are classified without a syntax tree).
pub open spec fn tables_of(language: Language) -> Option<TableSet> {
    match language {
        Language::TypeScript | Language::JavaScript => Some(TableSet::TypeScript),
        Language::Python => Some(TableSet::Python),
        Language::Rust => Some(TableSet::Rust),
        Language::Go => Some(TableSet::Go),
        Language::Java => Some(TableSet::Java),
        Language::C => Some(TableSet::C),
        Language::Cpp => Some(TableSet::Cpp),
        Language::CSharp => Some(TableSet::CSharp),
        Language::Ruby => Some(TableSet::Ruby),
        Language::Kotlin => Some(TableSet::Kotlin),
        Language::Swift => Some(TableSet::Swift),
        Language::Sql => Some(TableSet::Sql),
        Language::Json | Language::Yaml | Language::Toml | Language::Markdown => None,
    }
}

/// The field table of a table set.
pub open spec fn field_of_kind(t: TableSet, kind: Seq<char>) -> Option<SearchField> {
    match t {
        TableSet::TypeScript => ts_field_map(kind),
        TableSet::Python => py_field_map(kind),
        TableSet::Rust => rs_field_map(kind),
        TableSet::Go => go_field_map(kind),
        TableSet::Java => java_field_map(kind),
        TableSet::C => c_field_map(kind),
        TableSet::Cpp => cpp_field_map(kind),
        TableSet::CSharp => cs_field_map(kind),
        TableSet::Ruby => rb_field_map(kind),
        TableSet::Kotlin => kt_field_map(kind),
        TableSet::Swift => swift_field_map(kind),
        TableSet::Sql => sql_field_map(kind),
    }
}

/// The declaration table of a table set.
pub open spec fn field_of_parent(t: TableSet, kind: Seq<char>) -> Option<SearchField> {
    match t {
        TableSet::TypeScript => ts_decl_parents(kind),
        TableSet::Python => py_decl_parents(kind),
        TableSet::Rust => rs_decl_parents(kind),
        TableSet::Go => go_decl_parents(kind),
        TableSet::Java => java_decl_parents(kind),
        TableSet::C => c_decl_parents(kind),
        TableSet::Cpp => cpp_decl_parents(kind),
        TableSet::CSharp => cs_decl_parents(kind),
        TableSet::Ruby => rb_decl_parents(kind),
        TableSet::Kotlin => kt_decl_parents(kind),
        TableSet::Swift => swift_decl_parents(kind),
        TableSet::Sql => sql_decl_parents(kind),
    }
}

/// The node kinds of identifiers.
pub open spec fn is_identifier_kind(kind: Seq<char>) -> bool {
    kind == "identifier"@ || kind == "type_identifier"@ || kind == "property_identifier"@
}

/// The field of a node: by its kind, else, for an identifier with a
/// parent, by the parent's kind.
pub open spec fn classify(t: TableSet, kind: Seq<char>, parent: Option<Seq<char>>) -> Option<
    SearchField,
> {
    match field_of_kind(t, kind) {
        Some(f) => Some(f),
        None => if is_identifier_kind(kind) {
            match parent {
                Some(p) => field_of_parent(t, p),
                None => None,
            }
        } else {
            None
        },
    }
}

/// How a node is classified: a node whose kind is in the table gets that
/// field, whatever its parent; a node whose kind is not is classified by its
/// parent's kind exactly when it is an identifier (`identifier`,
/// `type_identifier` or `property_identifier`) and has a parent, and has no
/// field otherwise.
pub proof fn lemma_classify_by_kind_then_parent(t: TableSet, kind: Seq<char>, parent: Option<Seq<char>>)
    ensures
        field_of_kind(t, kind) is Some ==> classify(t, kind, parent) == field_of_kind(t, kind),
        field_of_kind(t, kind) is None ==> classify(t, kind, parent) == (if (kind == "identifier"@
            || kind == "type_identifier"@ || kind == "property_identifier"@) && parent is Some {
            field_of_parent(t, parent->0)
        } else {
            None
        }),
{
}

/// Maximum depth of a node that is classified; deeper nodes are ignored.
pub const MAX_AST_DEPTH: u32 = 128;

/// A syntax tree node as the classifier reads it: its kind, its parent's
/// kind, its byte range and its depth (the root at 0).
pub struct SyntaxNode {
    pub kind: String,
    pub parent_kind: Option<String>,
    pub start: usize,
    pub end: usize,
    pub depth: u32,
}

/// The view of an optional string.
pub open spec fn opt_view(o: Option<String>) -> Option<Seq<char>> {
    match o {
        Some(s) => Some(s@),
        None => None,
    }
}

/// The classified regions of nodes given in pre-order: each node above the
/// depth limit whose classification is a field gives its byte range.
pub open spec fn classified_regions(t: TableSet, nodes: Seq<SyntaxNode>) -> Seq<
    (int, int, SearchField),
>
    decreases nodes.len(),
{
    if nodes.len() == 0 {
        Seq::empty()
    } else {
        let prev = classified_regions(t, nodes.drop_last());
        let n = nodes.last();
        if n.depth >= MAX_AST_DEPTH {
            prev
        } else {
            match classify(t, n.kind@, opt_view(n.parent_kind)) {
                Some(f) => prev.push((n.start as int, n.end as int, f)),
                None => prev,
            }
        }
    }
}

/// Classifying nodes in order: a node at depth 128 or deeper adds no
/// region; a shallower node adds one region, with its own byte range, when
/// its kind (or, for an identifier, its parent's kind) gives a field, and
/// none otherwise; the regions of the nodes before it are kept as they are.
pub proof fn lemma_classified_regions_step(t: TableSet, nodes: Seq<SyntaxNode>, n: SyntaxNode)
    ensures
        n.depth >= 128 ==> classified_regions(t, nodes.push(n)) == classified_regions(t, nodes),
        n.depth < 128 ==> classified_regions(t, nodes.push(n)) == match classify(
            t,
            n.kind@,
            opt_view(n.parent_kind),
        ) {
            Some(f) => classified_regions(t, nodes).push((n.start as int, n.end as int, f)),
            None => classified_regions(t, nodes),
        },
{
    assert(nodes.push(n).drop_last() =~= nodes);
}

/// The languages with syntax-tree tables: JavaScript uses TypeScript's
/// tables, every other tree language its own, and JSON, YAML, TOML and
/// Markdown have none.
pub proof fn lemma_tables_of_languages()
    ensures
        tables_of(Language::TypeScript) == Some(TableSet::TypeScript),
        tables_of(Language::JavaScript) == Some(TableSet::TypeScript),
        tables_of(Language::Python) == Some(TableSet::Python),
        tables_of(Language::Rust) == Some(TableSet::Rust),
        tables_of(Language::Go) == Some(TableSet::Go),
        tables_of(Language::Java) == Some(TableSet::Java),
        tables_of(Language::C) == Some(TableSet::C),
        tables_of(Language::Cpp) == Some(TableSet::Cpp),
        tables_of(Language::CSharp) == Some(TableSet::CSharp),
        tables_of(Language::Ruby) == Some(TableSet::Ruby),
        tables_of(Language::Kotlin) == Some(TableSet::Kotlin),
        tables_of(Language::Swift) == Some(TableSet::Swift),
        tables_of(Language::Sql) == Some(TableSet::Sql),
        tables_of(Language::Json) is None,
        tables_of(Language::Yaml) is None,
        tables_of(Language::Toml) is None,
        tables_of(Language::Markdown) is None,
{
}

/// Field classifier for the syntax-tree languages.
#[derive(Debug, Clone, Copy, PartialEq, Eq, Structural)]
pub struct TreeSitterClassifier {
    pub tables: TableSet,
}

impl TreeSitterClassifier {
    /// The classifier of a language; `None` for JSON, YAML, TOML and
    /// Markdown.
    pub fn for_language(language: Language) -> (r: Option<Self>)
        ensures
            match tables_of(language) {
                Some(t) => r == Some(TreeSitterClassifier { tables: t }),
                None => r is None,
            },
    {
        let tables = match language {
            Language::TypeScript | Language::JavaScript => TableSet::TypeScript,
            Language::Python => TableSet::Python,
            Language::Rust => TableSet::Rust,
            Language::Go => TableSet::Go,
            Language::Java => TableSet::Java,
            Language::C => TableSet::C,
            Language::Cpp => TableSet::Cpp,
            Language::CSharp => TableSet::CSharp,
            Language::Ruby => TableSet::Ruby,
            Language::Kotlin => TableSet::Kotlin,
            Language::Swift => TableSet::Swift,
            Language::Sql => TableSet::Sql,
            Language::Json | Language::Yaml | Language::Toml | Language::Markdown => {
                return None;
            },
        };
        Some(TreeSitterClassifier { tables })
    }

    fn kind_field(&self, kind: &str) -> (r: Option<SearchField>)
        ensures
            r == field_of_kind(self.tables, kind@),
    {
        match self.tables {
            TableSet::TypeScript => ts_field_map_lookup(kind),
            TableSet::Python => py_field_map_lookup(kind),
            TableSet::Rust => rs_field_map_lookup(kind),
            TableSet::Go => go_field_map_lookup(kind),
            TableSet::Java => java_field_map_lookup(kind),
            TableSet::C => c_field_map_lookup(kind),
            TableSet::Cpp => cpp_field_map_lookup(kind),
            TableSet::CSharp => cs_field_map_lookup(kind),
            TableSet::Ruby => rb_field_map_lookup(kind),
            TableSet::Kotlin => kt_field_map_lookup(kind),
            TableSet::Swift => swift_field_map_lookup(kind),
            TableSet::Sql => sql_field_map_lookup(kind),
        }
    }

    fn parent_field(&self, kind: &str) -> (r: Option<SearchField>)
        ensures
            r == field_of_parent(self.tables, kind@),
    {
        match self.tables {
            TableSet::TypeScript => ts_decl_parents_lookup(kind),
            TableSet::Python => py_decl_parents_lookup(kind),
            TableSet::Rust => rs_decl_parents_lookup(kind),
            TableSet::Go => go_decl_parents_lookup(kind),
            TableSet::Java => java_decl_parents_lookup(kind),
            TableSet::C => c_decl_parents_lookup(kind),
            TableSet::Cpp => cpp_decl_parents_lookup(kind),
            TableSet::CSharp => cs_decl_parents_lookup(kind),
            TableSet::Ruby => rb_decl_parents_lookup(kind),
            TableSet::Kotlin => kt_decl_parents_lookup(kind),
            TableSet::Swift => swift_decl_parents_lookup(kind),
            TableSet::Sql => sql_decl_parents_lookup(kind),
        }
    }

    /// Classify a node by its kind and, for identifiers, its parent's kind.
    pub fn classify_node(&self, kind: &str, parent_kind: Option<&str>) -> (r: Option<SearchField>)
        ensures
            r == classify(
                self.tables,
                kind@,
                match parent_kind {
                    Some(p) => Some(p@),
                    None => None,
                },
            ),
    {
        match self.kind_field(kind) {
            Some(f) => Some(f),
            None => {
                if str_eq(kind, "identifier") || str_eq(kind, "type_identifier") || str_eq(
                    kind,
                    "property_identifier",
                ) {
                    match parent_kind {
                        Some(p) => self.parent_field(p),
                        None => None,
                    }
                } else {
                    None
                }
            },
        }
    }

    /// Classify nodes given in pre-order into byte-range regions, skipping
    /// nodes at or below the depth limit.
    pub fn classify_nodes(&self, nodes: &[SyntaxNode]) -> (r: Vec<(Range<usize>, SearchField)>)
        ensures
            regions_view(r@) == classified_regions(self.tables, nodes@),
    {
        let mut out: Vec<(Range<usize>, SearchField)> = Vec::new();
        let mut i: usize = 0;
        while i < nodes.len()
            invariant
                i <= nodes@.len(),
                regions_view(out@) == classified_regions(self.tables, nodes@.take(i as int)),
            decreases nodes@.len() - i,
        {
            let n = &nodes[i];
            assert(nodes@.take(i + 1).drop_last() =~= nodes@.take(i as int));
            assert(nodes@.take(i + 1).last() == *n);
            if n.depth < MAX_AST_DEPTH {
                let parent = match &n.parent_kind {
                    Some(p) => Some(p.as_str()),
                    None => None,
                };
                match self.classify_node(n.kind.as_str(), parent) {
                    Some(f) => {
                        let ghost before = out@;
                        out.push((n.start..n.end, f));
                        assert(regions_view(out@) =~= regions_view(before).push(
                            (n.start as int, n.end as int, f),
                        ));
                    },
                    None => {},
                }
            }
            i = i + 1;
        }
        assert(nodes@.take(nodes@.len() as int) =~= nodes@);
        out
    }
}

/// The field classifier of a language, if it has a syntax-tree one.
pub fn for_language(language: Language) -> (r: Option<TreeSitterClassifier>)
    ensures
        match tables_of(language) {
            Some(t) => r == Some(TreeSitterClassifier { tables: t }),
            None => r is None,
        },
{
    TreeSitterClassifier::for_language(language)
}

} // verus!
