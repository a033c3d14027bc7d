//! Query-side types: semantic fields, temporal flags and the search query.
use vstd::prelude::*;

verus! {

/// Semantic field within a source file used for field-boosted scoring.
#[derive(Debug, Clone, Copy, PartialEq, Eq, Hash, Structural)]
pub enum SearchField {
    /// Top-level type, interface, struct, class, or enum definition.
    TypeDefinition,
    /// Function or method signature.
    FunctionSignature,
    /// Bare symbol name in a declaration context.
    SymbolName,
    /// Import or export statement.
    ImportExport,
    /// Function or method body.
    FunctionBody,
    /// Doc comment or regular comment.
    Comment,
    /// String literal value.
    StringLiteral,
}

/// The stable on-disk code of each field.
pub open spec fn field_code(f: SearchField) -> u8 {
    match f {
        SearchField::TypeDefinition => 0,
        SearchField::FunctionSignature => 1,
        SearchField::SymbolName => 2,
        SearchField::ImportExport => 3,
        SearchField::FunctionBody => 4,
        SearchField::Comment => 5,
        SearchField::StringLiteral => 6,
    }
}

/// The field with on-disk code `v`, if `v` is a known code.
pub open spec fn field_of_code(v: u8) -> Option<SearchField> {
    if v == 0 {
        Some(SearchField::TypeDefinition)
    } else if v == 1 {
        Some(SearchField::FunctionSignature)
    } else if v == 2 {
        Some(SearchField::SymbolName)
    } else if v == 3 {
        Some(SearchField::ImportExport)
    } else if v == 4 {
        Some(SearchField::FunctionBody)
    } else if v == 5 {
        Some(SearchField::Comment)
    } else if v == 6 {
        Some(SearchField::StringLiteral)
    } else {
        None
    }
}

/// The number of distinct fields; valid codes are `0..FIELD_COUNT`.
pub const FIELD_COUNT: u8 = 7;

impl SearchField {
    /// Convert to the compact on-disk code.
    pub fn as_u8(self) -> (r: u8)
        ensures
            r == field_code(self),
    {
        match self {
            SearchField::TypeDefinition => 0,
            SearchField::FunctionSignature => 1,
            SearchField::SymbolName => 2,
            SearchField::ImportExport => 3,
            SearchField::FunctionBody => 4,
            SearchField::Comment => 5,
            SearchField::StringLiteral => 6,
        }
    }

    /// Reconstruct from an on-disk code; `None` for unknown codes.
    pub fn from_u8(v: u8) -> (r: Option<Self>)
        ensures
            r == field_of_code(v),
    {
        match v {
            0 => Some(SearchField::TypeDefinition),
            1 => Some(SearchField::FunctionSignature),
            2 => Some(SearchField::SymbolName),
            3 => Some(SearchField::ImportExport),
            4 => Some(SearchField::FunctionBody),
            5 => Some(SearchField::Comment),
            6 => Some(SearchField::StringLiteral),
            _ => None,
        }
    }

    /// All variants in code order.
    pub fn all() -> (r: Vec<Self>)
        ensures
            r@.len() == FIELD_COUNT,
            forall|i: int| 0 <= i < r@.len() ==> field_code(#[trigger] r@[i]) == i,
    {
        vec![
            SearchField::TypeDefinition,
            SearchField::FunctionSignature,
            SearchField::SymbolName,
            SearchField::ImportExport,
            SearchField::FunctionBody,
            SearchField::Comment,
            SearchField::StringLiteral,
        ]
    }
}

/// Decoding a field's code gives the field back.
pub proof fn lemma_field_code_roundtrip(f: SearchField)
    ensures
        field_of_code(field_code(f)) == Some(f),
{
}

/// A code decodes to a field exactly when it is below `FIELD_COUNT`, and
/// encoding that field gives the code back.
pub proof fn lemma_field_of_code_inverse(v: u8)
    ensures
        field_of_code(v) is Some <==> v < FIELD_COUNT,
        field_of_code(v) matches Some(f) ==> field_code(f) == v,
{
}

/// Temporal filter flags for query-time filtering by git activity signals.
#[derive(Debug, Clone, Copy, PartialEq, Eq, Structural)]
pub struct TemporalFlags {
    /// Include only files with high blast radius.
    pub blast_radius: bool,
    /// Include only recently active files.
    pub hot: bool,
    /// Include only files with no recent changes.
    pub cold: bool,
    /// Include only files with high churn or complexity.
    pub risky: bool,
}

impl Default for TemporalFlags {
    fn default() -> (r: Self)
        ensures
            !r.blast_radius && !r.hot && !r.cold && !r.risky,
    {
        TemporalFlags { blast_radius: false, hot: false, cold: false, risky: false }
    }
}

/// Default number of results a query returns.
pub const DEFAULT_LIMIT: usize = 50;

/// Query to execute against the search index.
#[derive(Debug, Clone)]
pub struct SearchQuery {
    /// Free-text query string for lexical matching.
    pub text_query: Option<String>,
    /// AST pattern string for structural matching.
    pub ast_pattern: Option<String>,
    /// Temporal filter flags.
    pub temporal_flags: TemporalFlags,
    /// Maximum number of results to return.
    pub limit: usize,
    /// Number of results to skip.
    pub offset: usize,
}

/// The view of an optional string: its characters, if present.
pub open spec fn opt_str_view(o: Option<String>) -> Option<Seq<char>> {
    match o {
        Some(s) => Some(s@),
        None => None,
    }
}

impl SearchQuery {
    /// A query with no text, no pattern, all flags off, limit 50 and offset 0.
    pub fn new() -> (r: Self)
        ensures
            r.text_query is None,
            r.ast_pattern is None,
            r.temporal_flags == (TemporalFlags { blast_radius: false, hot: false, cold: false, risky: false }),
            r.limit == DEFAULT_LIMIT,
            r.offset == 0,
    {
        SearchQuery {
            text_query: None,
            ast_pattern: None,
            temporal_flags: TemporalFlags::default(),
            limit: DEFAULT_LIMIT,
            offset: 0,
        }
    }

    /// A default query carrying the given text.
    pub fn text(query: &str) -> (r: Self)
        ensures
            opt_str_view(r.text_query) == Some(query@),
            r.ast_pattern is None,
            r.temporal_flags == (TemporalFlags { blast_radius: false, hot: false, cold: false, risky: false }),
            r.limit == DEFAULT_LIMIT,
            r.offset == 0,
    {
        Self::new().with_text(query)
    }

    /// Set the free-text query string.
    pub fn with_text(self, text: &str) -> (r: Self)
        ensures
            opt_str_view(r.text_query) == Some(text@),
            r.ast_pattern == self.ast_pattern,
            r.temporal_flags == self.temporal_flags,
            r.limit == self.limit,
            r.offset == self.offset,
    {
        let mut q = self;
        q.text_query = Some(text.to_owned());
        q
    }

    /// Set the maximum number of results.
    pub fn with_limit(self, limit: usize) -> (r: Self)
        ensures
            r.limit == limit,
            r.text_query == self.text_query,
            r.ast_pattern == self.ast_pattern,
            r.temporal_flags == self.temporal_flags,
            r.offset == self.offset,
    {
        let mut q = self;
        q.limit = limit;
        q
    }

    /// Set the pagination offset.
    pub fn with_offset(self, offset: usize) -> (r: Self)
        ensures
            r.offset == offset,
            r.text_query == self.text_query,
            r.ast_pattern == self.ast_pattern,
            r.temporal_flags == self.temporal_flags,
            r.limit == self.limit,
    {
        let mut q = self;
        q.offset = offset;
        q
    }

    /// Set the AST pattern for structural matching.
    pub fn with_ast_pattern(self, pattern: &str) -> (r: Self)
        ensures
            opt_str_view(r.ast_pattern) == Some(pattern@),
            r.text_query == self.text_query,
            r.temporal_flags == self.temporal_flags,
            r.limit == self.limit,
            r.offset == self.offset,
    {
        let mut q = self;
        q.ast_pattern = Some(pattern.to_owned());
        q
    }

    /// Set the temporal filter flags.
    pub fn with_temporal_flags(self, flags: TemporalFlags) -> (r: Self)
        ensures
            r.temporal_flags == flags,
            r.text_query == self.text_query,
            r.ast_pattern == self.ast_pattern,
            r.limit == self.limit,
            r.offset == self.offset,
    {
        let mut q = self;
        q.temporal_flags = flags;
        q
    }
}

impl Default for SearchQuery {
    fn default() -> (r: Self)
        ensures
            r.text_query is None,
            r.ast_pattern is None,
            r.temporal_flags == (TemporalFlags { blast_radius: false, hot: false, cold: false, risky: false }),
            r.limit == DEFAULT_LIMIT,
            r.offset == 0,
    {
        Self::new()
    }
}

} // verus!
