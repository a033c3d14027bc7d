//! On-disk index format: encoding, reading back, corruption checks,
//! tombstones and the delta segment, all on in-memory bytes.

use rskim_search::lexical::index_format::entry::IndexEntry;
use rskim_search::lexical::index_format::delta::{encode_delta, DeltaReader, MAX_DELTA_BYTES};
use rskim_search::lexical::index_format::reader::IndexReader;
use rskim_search::lexical::index_format::tombstones::Tombstones;
use rskim_search::lexical::index_format::writer::encode_index;
use rskim_search::lexical::{index_magic, IndexHeader, Ngram, PostingEntry, INDEX_FORMAT_VERSION};
use rskim_search::types::error::{BuildError, CorruptionKind};

fn posting(doc_id: u32, field_id: u8, position: u32, tf: u16) -> PostingEntry {
    PostingEntry { doc_id, field_id, position, tf }
}

fn header(ngram_count: u64, file_count: u64) -> IndexHeader {
    IndexHeader {
        magic: index_magic(),
        version: INDEX_FORMAT_VERSION,
        ngram_count,
        file_count,
        created_at: 1_700_000_000,
    }
}

fn sample_entries() -> Vec<(Ngram, Vec<PostingEntry>)> {
    vec![
        (Ngram::from_hash(10), vec![posting(0, 0, 0, 1), posting(1, 4, 7, 3)]),
        (Ngram::from_hash(20), vec![posting(2, 5, 9, 2)]),
        (Ngram::from_hash(30), vec![]),
    ]
}

#[test]
fn tombstones_add_is_idempotent() {
    let mut ts = Tombstones::default();
    ts.add(42);
    ts.add(42);
    ts.add(42);
    assert_eq!(ts.len(), 1, "duplicate adds must not grow the set");
    assert!(ts.contains(42));
}

#[test]
fn tombstones_bytes_roundtrip_sorted() {
    let mut ts = Tombstones::default();
    for id in [30u32, 10, 20, 10] {
        ts.add(id);
    }
    assert_eq!(ts.len(), 3);
    let bytes = ts.to_bytes();
    assert_eq!(bytes, vec![10, 0, 0, 0, 20, 0, 0, 0, 30, 0, 0, 0]);
    let loaded = Tombstones::from_bytes(&bytes).expect("load");
    assert_eq!(loaded.len(), 3);
    assert!(loaded.contains(10) && loaded.contains(20) && loaded.contains(30));
    assert!(!loaded.contains(0) && !loaded.contains(15));
}

#[test]
fn tombstones_reject_misaligned_bytes() {
    assert_eq!(
        Tombstones::from_bytes(&[1, 0, 0]).map(|t| t.len()),
        Err(CorruptionKind::TombstonesMisaligned { size: 3 })
    );
}

#[test]
fn tombstones_empty_set() {
    let ts = Tombstones::default();
    assert!(ts.is_empty());
    assert_eq!(ts.to_bytes(), Vec::<u8>::new());
    assert!(Tombstones::from_bytes(&[]).expect("empty").is_empty());
}

#[test]
fn written_index_reads_back() {
    let entries = sample_entries();
    let encoded = encode_index(&entries, &header(3, 3)).expect("encode");
    assert_eq!(encoded.lookup.len(), 32 + 3 * 20);
    assert_eq!(encoded.postings.len(), 3 * 12);

    let reader = IndexReader::from_bytes(encoded.lookup, encoded.postings).expect("open");
    assert_eq!(reader.validate(), Ok(()));
    assert_eq!(reader.header().ngram_count, 3);
    assert_eq!(reader.header().file_count, 3);
    assert_eq!(
        reader.lookup(Ngram::from_hash(10)),
        Some(vec![posting(0, 0, 0, 1), posting(1, 4, 7, 3)])
    );
    assert_eq!(reader.lookup(Ngram::from_hash(20)), Some(vec![posting(2, 5, 9, 2)]));
    assert_eq!(reader.lookup(Ngram::from_hash(30)), Some(vec![]));
    assert_eq!(reader.lookup(Ngram::from_hash(15)), None);
    assert_eq!(reader.lookup(Ngram::from_hash(40)), None);
}

#[test]
fn lookup_drops_postings_of_unknown_files_or_fields() {
    let entries = vec![(
        Ngram::from_hash(5),
        vec![posting(0, 0, 0, 1), posting(9, 0, 0, 1), posting(1, 7, 0, 1), posting(1, 6, 0, 1)],
    )];
    let encoded = encode_index(&entries, &header(1, 2)).expect("encode");
    let reader = IndexReader::from_bytes(encoded.lookup, encoded.postings).expect("open");
    assert_eq!(reader.lookup(Ngram::from_hash(5)), Some(vec![posting(0, 0, 0, 1), posting(1, 6, 0, 1)]));
}

#[test]
fn lookup_into_clears_the_buffer() {
    let encoded = encode_index(&sample_entries(), &header(3, 3)).expect("encode");
    let reader = IndexReader::from_bytes(encoded.lookup, encoded.postings).expect("open");
    let mut buf = vec![posting(7, 7, 7, 7)];
    assert!(!reader.lookup_into(Ngram::from_hash(11), &mut buf));
    assert!(buf.is_empty());
    assert!(reader.lookup_into(Ngram::from_hash(20), &mut buf));
    assert_eq!(buf, vec![posting(2, 5, 9, 2)]);
}

#[test]
fn empty_index_roundtrip() {
    let encoded = encode_index(&[], &header(0, 0)).expect("encode");
    assert_eq!(encoded.lookup.len(), 32);
    assert!(encoded.postings.is_empty());
    let reader = IndexReader::from_bytes(encoded.lookup, encoded.postings).expect("open");
    assert_eq!(reader.lookup(Ngram::from_hash(1)), None);
}

#[test]
fn reader_rejects_short_header() {
    assert_eq!(
        IndexReader::from_bytes(vec![0; 10], vec![]).map(|_| ()),
        Err(CorruptionKind::HeaderTooSmall { len: 10 })
    );
}

#[test]
fn reader_rejects_bad_magic() {
    let mut lookup = header(0, 0).to_bytes().to_vec();
    lookup[0] = b'X';
    assert_eq!(
        IndexReader::from_bytes(lookup, vec![]).map(|_| ()),
        Err(CorruptionKind::BadMagic { magic: *b"XKIM" })
    );
}

#[test]
fn reader_rejects_other_version() {
    let mut h = header(0, 0);
    h.version = 2;
    assert_eq!(
        IndexReader::from_bytes(h.to_bytes().to_vec(), vec![]).map(|_| ()),
        Err(CorruptionKind::UnsupportedVersion { version: 2 })
    );
}

#[test]
fn reader_rejects_size_mismatch() {
    let lookup = header(2, 0).to_bytes().to_vec();
    assert_eq!(
        IndexReader::from_bytes(lookup, vec![]).map(|_| ()),
        Err(CorruptionKind::IndexSizeMismatch { expected: 72, ngram_count: 2, actual: 32 })
    );
}

#[test]
fn reader_rejects_misaligned_postings() {
    let lookup = header(0, 0).to_bytes().to_vec();
    assert_eq!(
        IndexReader::from_bytes(lookup, vec![0; 5]).map(|_| ()),
        Err(CorruptionKind::PostingsMisaligned { size: 5 })
    );
}

#[test]
fn validate_reports_out_of_bounds_range() {
    let entries = vec![(Ngram::from_hash(1), vec![posting(0, 0, 0, 1)])];
    let encoded = encode_index(&entries, &header(1, 1)).expect("encode");
    let reader = IndexReader::from_bytes(encoded.lookup, vec![]).expect("open");
    assert_eq!(
        reader.validate(),
        Err(CorruptionKind::PostingRangeOutOfBounds { entry: 0, start: 0, end: 12, size: 0 })
    );
}

#[test]
fn encode_keeps_the_given_list_order() {
    // Lists are written in the order given; the table records their hashes.
    let entries = vec![(Ngram::from_hash(2), vec![]), (Ngram::from_hash(1), vec![])];
    let encoded = encode_index(&entries, &header(2, 0)).expect("encode");
    assert_eq!(&encoded.lookup[32..40], &2u64.to_le_bytes());
    assert_eq!(&encoded.lookup[52..60], &1u64.to_le_bytes());
}

#[test]
fn build_error_variants_are_distinct() {
    assert_ne!(BuildError::PostingsSizeOverflow, BuildError::DocIdOverflow);
    assert_eq!(
        BuildError::PostingListTooLong { ngram: 3 },
        BuildError::PostingListTooLong { ngram: 3 }
    );
}

#[test]
fn delta_roundtrip_keeps_file_order() {
    let a = Ngram::from_hash(7);
    let b = Ngram::from_hash(8);
    let bytes = encode_delta(&[
        (a, posting(1, 0, 0, 1)),
        (b, posting(2, 0, 0, 1)),
        (a, posting(3, 4, 5, 6)),
    ]);
    assert_eq!(bytes.len(), 60);
    let reader = DeltaReader::from_bytes(bytes).expect("ok").expect("non-empty");
    assert_eq!(reader.scan(a), vec![posting(1, 0, 0, 1), posting(3, 4, 5, 6)]);
    assert_eq!(reader.scan(b), vec![posting(2, 0, 0, 1)]);
    assert_eq!(reader.scan(Ngram::from_hash(9)), vec![]);
}

#[test]
fn delta_append_reads_back_after_existing_records() {
    let a = Ngram::from_hash(7);
    let mut bytes = encode_delta(&[(a, posting(1, 0, 0, 1))]);
    bytes.extend(encode_delta(&[(a, posting(2, 0, 0, 1))]));
    let reader = DeltaReader::from_bytes(bytes).expect("ok").expect("non-empty");
    assert_eq!(reader.scan(a), vec![posting(1, 0, 0, 1), posting(2, 0, 0, 1)]);
}

#[test]
fn delta_ignores_a_torn_record() {
    let a = Ngram::from_hash(7);
    let mut bytes = encode_delta(&[(a, posting(1, 0, 0, 1))]);
    bytes.extend_from_slice(&[1, 2, 3]);
    let reader = DeltaReader::from_bytes(bytes).expect("ok").expect("non-empty");
    assert_eq!(reader.scan(a), vec![posting(1, 0, 0, 1)]);
}

#[test]
fn delta_empty_is_none_and_oversized_is_rejected() {
    assert!(DeltaReader::from_bytes(vec![]).expect("ok").is_none());
    let big = vec![0u8; MAX_DELTA_BYTES + 1];
    assert!(matches!(
        DeltaReader::from_bytes(big),
        Err(CorruptionKind::DeltaTooLarge { size }) if size == MAX_DELTA_BYTES + 1
    ));
}

#[test]
fn reader_rejects_table_size_overflow() {
    let lookup = header(u64::MAX / 16, 0).to_bytes().to_vec();
    assert_eq!(
        IndexReader::from_bytes(lookup, vec![]).map(|_| ()),
        Err(CorruptionKind::TableSizeOverflow { ngrams: (u64::MAX / 16) as usize })
    );
}

#[test]
fn validate_reports_range_overflow() {
    let mut lookup = header(1, 1).to_bytes().to_vec();
    let entry = IndexEntry { ngram_hash: 1, posting_offset: u64::MAX - 5, posting_length: 1 };
    lookup.extend_from_slice(&entry.to_bytes());
    let reader = IndexReader::from_bytes(lookup, vec![]).expect("open");
    assert_eq!(reader.validate(), Err(CorruptionKind::PostingRangeOverflow { entry: 0 }));
    assert_eq!(reader.lookup(Ngram::from_hash(1)), Some(vec![]));
}

#[test]
fn tombstones_reject_oversized_bytes() {
    let big = vec![0u8; 40_000_004];
    assert_eq!(
        Tombstones::from_bytes(&big).map(|t| t.len()),
        Err(CorruptionKind::TombstonesTooLarge { size: 40_000_004 })
    );
}

// Writing an index, a delta segment or a tombstone set and reading the
// bytes back.

fn ngram(text: &[u8]) -> Ngram {
    Ngram::from_bytes(text)
}

fn read_back(entries: &[(Ngram, Vec<PostingEntry>)], ngram_count: u64, file_count: u64) -> IndexReader {
    let mut h = header(ngram_count, file_count);
    h.created_at = 0;
    let encoded = encode_index(entries, &h).expect("write_index failed");
    IndexReader::from_bytes(encoded.lookup, encoded.postings).expect("open failed")
}

#[test]
fn write_and_open_empty_index() {
    let entries: Vec<(Ngram, Vec<PostingEntry>)> = vec![];
    let reader = read_back(&entries, 0, 0);
    assert_eq!(reader.header().ngram_count, 0);
    assert_eq!(reader.header().file_count, 0);
    assert_eq!(reader.header().magic, index_magic());
    assert_eq!(reader.header().version, INDEX_FORMAT_VERSION);
}

#[test]
fn write_and_lookup_single_ngram() {
    let ng = ngram(b"fn");
    let p = posting(0, 2, 100, 3);
    let reader = read_back(&[(ng, vec![p])], 1, 1);
    let results = reader.lookup(ng).expect("lookup returned None");
    assert_eq!(results.len(), 1);
    assert_eq!(results[0].doc_id, 0);
    assert_eq!(results[0].field_id, 2);
    assert_eq!(results[0].position, 100);
    assert_eq!(results[0].tf, 3);
}

#[test]
fn write_and_lookup_multiple_ngrams() {
    let ng_fn = ngram(b"fn");
    let ng_let = ngram(b"le");
    let ng_pub = ngram(b"pu");
    let mut entries = vec![
        (ng_fn, vec![posting(0, 1, 10, 1)]),
        (ng_let, vec![posting(1, 4, 20, 2)]),
        (ng_pub, vec![posting(2, 0, 30, 1)]),
    ];
    entries.sort_by_key(|(n, _)| n.as_u64());
    let reader = read_back(&entries, entries.len() as u64, 3);
    assert!(reader.lookup(ng_fn).is_some(), "fn ngram missing");
    assert!(reader.lookup(ng_let).is_some(), "let ngram missing");
    assert!(reader.lookup(ng_pub).is_some(), "pub ngram missing");
    let absent = ngram(b"zz");
    if absent.as_u64() != ng_fn.as_u64()
        && absent.as_u64() != ng_let.as_u64()
        && absent.as_u64() != ng_pub.as_u64()
    {
        assert!(reader.lookup(absent).is_none(), "absent ngram should be None");
    }
}

#[test]
fn write_and_lookup_large_posting_list() {
    let ng = ngram(b"aa");
    let postings: Vec<PostingEntry> = (0u32..10_000).map(|i| posting(i % 1000, 2, i * 4, 1)).collect();
    let expected_len = postings.len();
    let reader = read_back(&[(ng, postings)], 1, 1000);
    let results = reader.lookup(ng).expect("lookup returned None");
    assert_eq!(results.len(), expected_len);
}

#[test]
fn delta_writer_reader_roundtrip() {
    let ng = ngram(b"if");
    let p = posting(5, 1, 200, 4);
    let bytes = encode_delta(&[(ng, p)]);
    let reader = DeltaReader::from_bytes(bytes).expect("open failed").expect("reader should be Some");
    let results = reader.scan(ng);
    assert_eq!(results.len(), 1);
    assert_eq!(results[0].doc_id, 5);
    assert_eq!(results[0].field_id, 1);
    assert_eq!(results[0].position, 200);
    assert_eq!(results[0].tf, 4);
}

#[test]
fn delta_writer_appends_accumulate() {
    let ng = ngram(b"xy");
    let p1 = posting(0, 0, 10, 1);
    let p2 = posting(1, 2, 20, 2);
    let mut bytes = encode_delta(&[(ng, p1)]);
    bytes.extend_from_slice(&encode_delta(&[(ng, p2)]));
    let reader = DeltaReader::from_bytes(bytes).expect("open failed").expect("reader should be Some");
    let results = reader.scan(ng);
    assert_eq!(results.len(), 2, "both appended entries must be present");
}

#[test]
fn delta_reader_scan_filters_by_ngram() {
    let ng_a = ngram(b"ab");
    let ng_b = ngram(b"cd");
    if ng_a.as_u64() == ng_b.as_u64() {
        return;
    }
    let mut bytes = encode_delta(&[(ng_a, posting(0, 1, 0, 1))]);
    bytes.extend_from_slice(&encode_delta(&[(ng_b, posting(1, 2, 10, 2))]));
    let reader = DeltaReader::from_bytes(bytes).expect("open").expect("Some");
    let results_a = reader.scan(ng_a);
    let results_b = reader.scan(ng_b);
    assert_eq!(results_a.len(), 1, "only ng_a's entry");
    assert_eq!(results_a[0].doc_id, 0);
    assert_eq!(results_b.len(), 1, "only ng_b's entry");
    assert_eq!(results_b[0].doc_id, 1);
}

#[test]
fn tombstones_empty_roundtrip() {
    let ts = Tombstones::default();
    let loaded = Tombstones::from_bytes(&ts.to_bytes()).expect("load failed");
    assert!(loaded.is_empty());
    assert_eq!(loaded.len(), 0);
}

#[test]
fn tombstones_contains_uses_binary_search() {
    let mut ts = Tombstones::default();
    ts.add(10);
    ts.add(20);
    ts.add(30);
    ts.add(5);
    ts.add(15);
    let loaded = Tombstones::from_bytes(&ts.to_bytes()).expect("load");
    assert!(loaded.contains(5));
    assert!(loaded.contains(10));
    assert!(loaded.contains(15));
    assert!(loaded.contains(20));
    assert!(loaded.contains(30));
    assert!(!loaded.contains(0));
    assert!(!loaded.contains(7));
    assert!(!loaded.contains(100));
}

#[test]
fn tombstones_large_set_roundtrip() {
    let mut ts = Tombstones::default();
    for i in (0u32..1000).rev() {
        ts.add(i);
    }
    assert_eq!(ts.len(), 1000);
    let loaded = Tombstones::from_bytes(&ts.to_bytes()).expect("load");
    assert_eq!(loaded.len(), 1000);
    assert!(loaded.contains(0));
    assert!(loaded.contains(500));
    assert!(loaded.contains(999));
    assert!(!loaded.contains(1000));
}

#[test]
fn lookup_filters_invalid_field_id() {
    let ng = ngram(b"ba");
    let bad = posting(0, 99, 0, 1);
    let good = posting(0, 2, 10, 1);
    let reader = read_back(&[(ng, vec![bad, good])], 1, 1);
    let results = reader.lookup(ng).expect("lookup returned None");
    assert_eq!(results.len(), 1, "invalid field_id entry must be filtered");
    assert_eq!(results[0].field_id, 2);
}

#[test]
fn validate_passes_on_valid_index() {
    let ng = ngram(b"ok");
    let reader = read_back(&[(ng, vec![posting(0, 2, 10, 1)])], 1, 1);
    let result = reader.validate();
    assert!(result.is_ok(), "validate() must return Ok on a valid index, got: {result:?}");
}

#[test]
fn validate_passes_on_empty_index() {
    let reader = read_back(&[], 0, 0);
    assert!(reader.validate().is_ok(), "validate() must return Ok on an empty index");
}

#[test]
fn lookup_filters_doc_id_out_of_range() {
    let ng = ngram(b"ca");
    let oob = posting(5, 2, 0, 1);
    let good = posting(2, 2, 10, 1);
    let reader = read_back(&[(ng, vec![oob, good])], 1, 3);
    let results = reader.lookup(ng).expect("lookup returned None");
    assert_eq!(results.len(), 1, "out-of-range doc_id must be filtered");
    assert_eq!(results[0].doc_id, 2);
}

#[test]
fn delta_appends_read_back_in_order() {
    let ng = Ngram::from_hash(7);
    let other = Ngram::from_hash(8);
    let mut bytes = Vec::new();
    bytes.extend_from_slice(&encode_delta(&[(ng, posting(0, 0, 1, 1)), (other, posting(3, 1, 0, 1))]));
    bytes.extend_from_slice(&encode_delta(&[]));
    bytes.extend_from_slice(&encode_delta(&[(ng, posting(9, 99, 2, 2))]));
    bytes.extend_from_slice(&encode_delta(&[(ng, posting(1, 2, 3, 3))]));
    let reader = DeltaReader::from_bytes(bytes).expect("open").expect("Some");
    assert_eq!(
        reader.scan(ng),
        vec![posting(0, 0, 1, 1), posting(9, 99, 2, 2), posting(1, 2, 3, 3)]
    );
    assert_eq!(reader.scan(other), vec![posting(3, 1, 0, 1)]);
}
