//! Query evaluation up to scoring: terms, per-document frequencies and
//! pagination.

use rskim_search::lexical::index_format::delta::{encode_delta, DeltaReader};
use rskim_search::lexical::index_format::reader::IndexReader;
use rskim_search::lexical::index_format::tombstones::Tombstones;
use rskim_search::lexical::index_format::writer::encode_index;
use rskim_search::lexical::query::{collect_term_docs, gather_term_docs, paginate, query_terms};
use rskim_search::lexical::{index_magic, IndexHeader, Ngram, PostingEntry, INDEX_FORMAT_VERSION};
use rskim_search::{SearchField, SearchQuery};

fn posting(doc_id: u32, field_id: u8, tf: u16) -> PostingEntry {
    PostingEntry { doc_id, field_id, position: 0, tf }
}

#[test]
fn query_without_text_has_no_terms() {
    assert!(query_terms(&SearchQuery::new()).is_empty());
    assert!(query_terms(&SearchQuery::text("")).is_empty());
    assert!(query_terms(&SearchQuery::text("x")).is_empty());
}

#[test]
fn query_terms_are_the_query_bigrams() {
    let terms = query_terms(&SearchQuery::text("abc"));
    assert_eq!(terms, vec![Ngram::from_bytes(b"ab"), Ngram::from_bytes(b"bc")]);
}

#[test]
fn term_docs_group_by_document_and_drop_tombstoned() {
    let mut dead = Tombstones::default();
    dead.add(2);
    let main = vec![posting(1, 0, 3), posting(2, 0, 1), posting(1, 4, 2), posting(3, 9, 1)];
    let delta = vec![posting(2, 5, 1), posting(4, 1, 1)];
    let docs = collect_term_docs(&main, &dead, &delta);
    assert_eq!(
        docs,
        vec![
            (1, vec![(SearchField::TypeDefinition, 3), (SearchField::FunctionBody, 2)]),
            (2, vec![(SearchField::Comment, 1)]),
            (4, vec![(SearchField::FunctionSignature, 1)]),
        ]
    );
}

#[test]
fn term_docs_of_nothing_is_empty() {
    assert!(collect_term_docs(&[], &Tombstones::default(), &[]).is_empty());
}

#[test]
fn gathering_uses_main_index_and_delta() {
    let a = Ngram::from_bytes(b"ab");
    let b = Ngram::from_bytes(b"bc");
    let mut entries = vec![(a, vec![posting(0, 0, 1)]), (b, vec![posting(1, 2, 1)])];
    entries.sort_by_key(|e| e.0.as_u64());
    let header = IndexHeader {
        magic: index_magic(),
        version: INDEX_FORMAT_VERSION,
        ngram_count: 2,
        file_count: 3,
        created_at: 0,
    };
    let encoded = encode_index(&entries, &header).expect("encode");
    let reader = IndexReader::from_bytes(encoded.lookup, encoded.postings).expect("open");
    let delta = DeltaReader::from_bytes(encode_delta(&[(a, posting(2, 4, 1))])).expect("ok");
    let terms = query_terms(&SearchQuery::text("abc"));
    let docs = gather_term_docs(&terms, &reader, &Tombstones::default(), delta.as_ref());
    assert_eq!(docs.len(), 2);
    assert_eq!(
        docs[0],
        vec![
            (0, vec![(SearchField::TypeDefinition, 1)]),
            (2, vec![(SearchField::FunctionBody, 1)]),
        ]
    );
    assert_eq!(docs[1], vec![(1, vec![(SearchField::SymbolName, 1)])]);
}

#[test]
fn pagination_skips_then_limits() {
    assert_eq!(paginate(vec![1, 2, 3, 4, 5], 1, 2), vec![2, 3]);
    assert_eq!(paginate(vec![1, 2, 3], 0, 10), vec![1, 2, 3]);
    assert_eq!(paginate(vec![1, 2, 3], 3, 1), Vec::<i32>::new());
    assert_eq!(paginate(vec![1, 2, 3], 1, 0), Vec::<i32>::new());
}
