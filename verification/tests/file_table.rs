//! Path table: registration, normalization, confinement to a root, and
//! rebuilding from a list of paths.

use rskim_search::types::error::QueryError;
use rskim_search::types::file_table::{normalize_path, FileTableError};
use rskim_search::{FileId, FileTable, SearchError, MAX_FILE_TABLE_ENTRIES};

#[test]
fn test_file_id_accessors() {
    let id = FileId::new(42);
    assert_eq!(id.as_u64(), 42);
}

#[test]
fn test_file_table_register_and_lookup() {
    let mut table = FileTable::new();
    assert!(table.is_empty());

    let id = table.register("src/main.rs");
    assert_eq!(table.len(), 1);
    assert!(!table.is_empty());

    let path = table.lookup(id);
    assert_eq!(path, Some("src/main.rs"));

    let id2 = table.register("src/main.rs");
    assert_eq!(id, id2);
    assert_eq!(table.len(), 1);
}

#[test]
fn test_file_table_normalizes_paths() {
    let mut table = FileTable::new();

    let id1 = table.register("./src/main.rs");
    let id2 = table.register("src/main.rs");

    assert_eq!(id1, id2);
    assert_eq!(table.len(), 1);
}

#[test]
fn test_file_table_max_entries_constant_is_exported() {
    assert!(MAX_FILE_TABLE_ENTRIES > 0);
    assert!(MAX_FILE_TABLE_ENTRIES <= 10_000_000);
}

#[test]
fn lookup_of_unknown_id_is_none() {
    let mut table = FileTable::new();
    table.register("a.rs");
    assert_eq!(table.lookup(FileId::new(1)), None);
    assert_eq!(table.lookup(FileId::new(u64::MAX)), None);
}

#[test]
fn ids_are_assigned_in_registration_order() {
    let mut table = FileTable::new();
    assert_eq!(table.register("a.rs").as_u64(), 0);
    assert_eq!(table.register("b.rs").as_u64(), 1);
    assert_eq!(table.register("./a.rs").as_u64(), 0);
    assert_eq!(table.register("c/../b.rs").as_u64(), 1);
    assert_eq!(table.register("c.rs").as_u64(), 2);
}

#[test]
fn normalization_strips_dot_and_collapses_parent() {
    assert_eq!(normalize_path("./src/main.rs"), "src/main.rs");
    assert_eq!(normalize_path("a/b/../c.rs"), "a/c.rs");
    assert_eq!(normalize_path("../x.rs"), "../x.rs");
    assert_eq!(normalize_path("a/../../x.rs"), "../x.rs");
    assert_eq!(normalize_path("/a/../b"), "/b");
    assert_eq!(normalize_path("/../b"), "/../b");
    assert_eq!(normalize_path("a/.."), "");
}

#[test]
fn paths_without_dot_components_are_kept_as_given() {
    assert_eq!(normalize_path("src//main.rs"), "src//main.rs");
    assert_eq!(normalize_path("src/./main.rs"), "src/./main.rs");
    assert_eq!(normalize_path("src/"), "src/");
}

#[test]
fn separators_and_interior_dots_do_not_make_a_new_file() {
    let mut table = FileTable::new();
    let a = table.register("src/main.rs");
    assert_eq!(table.register("src//main.rs"), a);
    assert_eq!(table.register("src/./main.rs"), a);
    assert_eq!(table.register("./src/main.rs/"), a);
    assert_eq!(table.len(), 1);
    assert_eq!(table.lookup(a), Some("src/main.rs"));
}

#[test]
fn register_within_accepts_relative_paths_inside_root() {
    let mut table = FileTable::new();
    let id = table.register_within("src/lib.rs", "/repo").expect("inside root");
    assert_eq!(id.as_u64(), 0);
    assert_eq!(table.lookup(id), Some("src/lib.rs"));
    let again = table.register_within("./src/lib.rs", "/repo").expect("inside root");
    assert_eq!(again, id);
}

#[test]
fn register_within_rejects_absolute_paths() {
    let mut table = FileTable::new();
    let r = table.register_within("/etc/passwd", "/repo");
    assert_eq!(r, Err(SearchError::InvalidQuery(QueryError::AbsolutePath)));
    assert!(table.is_empty());
}

#[test]
fn register_within_rejects_escaping_paths() {
    let mut table = FileTable::new();
    let r = table.register_within("../other/secret.rs", "/repo");
    assert_eq!(r, Err(SearchError::InvalidQuery(QueryError::EscapesRoot)));
    let r = table.register_within("src/../../x.rs", "/repo/sub");
    assert_eq!(r, Err(SearchError::InvalidQuery(QueryError::EscapesRoot)));
    assert!(table.is_empty());
}

#[test]
fn register_within_allows_parent_that_stays_inside() {
    let mut table = FileTable::new();
    let id = table.register_within("a/../b.rs", "/repo").expect("inside root");
    assert_eq!(table.lookup(id), Some("b.rs"));
}

#[test]
fn register_within_relative_root() {
    let mut table = FileTable::new();
    assert!(table.register_within("x.rs", "proj").is_ok());
    assert_eq!(
        table.register_within("../x.rs", "proj"),
        Err(SearchError::InvalidQuery(QueryError::EscapesRoot))
    );
}

#[test]
fn paths_roundtrip_through_the_path_list() {
    let mut table = FileTable::new();
    let id_a = table.register("src/main.rs");
    let id_b = table.register("src/lib.rs");
    let id_c = table.register("tests/test.rs");

    let paths = table.to_paths();
    assert_eq!(paths, vec!["src/main.rs", "src/lib.rs", "tests/test.rs"]);

    let rt = FileTable::from_paths(&paths).expect("rebuild");
    assert_eq!(rt.len(), 3);
    assert_eq!(rt.lookup(id_a), Some("src/main.rs"));
    assert_eq!(rt.lookup(id_b), Some("src/lib.rs"));
    assert_eq!(rt.lookup(id_c), Some("tests/test.rs"));
}

#[test]
fn rebuilt_table_keeps_registering_idempotently() {
    let mut table = FileTable::new();
    let id_a = table.register("./src/main.rs");
    let id_b = table.register("./src/lib.rs");
    assert_eq!(table.lookup(id_a), Some("src/main.rs"));

    let mut rt = FileTable::from_paths(&table.to_paths()).expect("rebuild");
    assert_eq!(rt.register("./src/main.rs"), id_a);
    assert_eq!(rt.register("src/lib.rs"), id_b);
    assert_eq!(rt.len(), 2);
    assert_eq!(rt.register("c.rs").as_u64(), 2);
}

#[test]
fn kept_paths_are_normalized() {
    let mut table = FileTable::new();
    table.register("./src/main.rs");
    table.register("a/b/../c.rs");
    assert_eq!(table.to_paths(), vec!["src/main.rs", "a/c.rs"]);
}

#[test]
fn rebuilding_rejects_duplicate_normalized_paths() {
    let paths = vec!["./src/main.rs".to_string(), "src/main.rs".to_string()];
    assert_eq!(
        FileTable::from_paths(&paths).map(|t| t.len()),
        Err(FileTableError::DuplicatePath { index: 1 })
    );
}

#[test]
fn rebuilding_accepts_a_small_list() {
    let paths = vec!["a.rs".to_string(), "b.rs".to_string(), "c.rs".to_string()];
    let t = FileTable::from_paths(&paths).expect("small list");
    assert_eq!(t.len(), 3);
}

#[test]
fn rebuilding_rejects_more_than_the_maximum() {
    let paths = vec![String::new(); MAX_FILE_TABLE_ENTRIES + 1];
    assert_eq!(
        FileTable::from_paths(&paths).map(|t| t.len()),
        Err(FileTableError::TooManyEntries { count: MAX_FILE_TABLE_ENTRIES + 1 })
    );
}
