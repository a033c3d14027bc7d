//! On-disk record types: postings, header, lookup entries and n-gram hashes.

use rskim_search::lexical::index_format::entry::IndexEntry;
use rskim_search::lexical::{
    fxhash_bytes, index_magic, IndexHeader, Ngram, PostingEntry, INDEX_FORMAT_VERSION,
};

#[test]
fn posting_entry_roundtrip() {
    let entry = PostingEntry { doc_id: 42, field_id: 2, position: 1024, tf: 7 };
    let bytes = entry.to_bytes();
    let decoded = PostingEntry::from_bytes(&bytes);
    assert_eq!(decoded, Some(entry));
}

#[test]
fn posting_entry_from_short_slice() {
    assert_eq!(PostingEntry::from_bytes(&[0; 11]), None);
}

#[test]
fn index_header_roundtrip() {
    let header = IndexHeader {
        magic: index_magic(),
        version: INDEX_FORMAT_VERSION,
        ngram_count: 50_000,
        file_count: 1_234,
        created_at: 1_700_000_000,
    };
    let bytes = header.to_bytes();
    let decoded = IndexHeader::from_bytes(&bytes);
    assert_eq!(decoded, Some(header));
}

#[test]
fn index_header_from_short_slice() {
    assert_eq!(IndexHeader::from_bytes(&[0; 31]), None);
}

#[test]
fn ngram_deterministic() {
    let a = Ngram::from_bytes(b"fn");
    let b = Ngram::from_bytes(b"fn");
    assert_eq!(a, b);
}

#[test]
fn ngram_different_inputs_differ() {
    let a = Ngram::from_bytes(b"fn");
    let b = Ngram::from_bytes(b"if");
    assert_ne!(a, b);
}

#[test]
fn index_entry_roundtrip() {
    let entry = IndexEntry { ngram_hash: 0xDEAD_BEEF_CAFE_1234, posting_offset: 42, posting_length: 7 };
    let bytes = entry.to_bytes();
    let decoded = IndexEntry::from_bytes(&bytes).expect("roundtrip must succeed");
    assert_eq!(decoded.ngram_hash, entry.ngram_hash);
    assert_eq!(decoded.posting_offset, entry.posting_offset);
    assert_eq!(decoded.posting_length, entry.posting_length);
}

#[test]
fn index_entry_from_short_slice_returns_none() {
    assert!(IndexEntry::from_bytes(&[0u8; 19]).is_none());
}

// Exact byte layouts.

#[test]
fn posting_entry_layout_is_little_endian_with_padding() {
    let entry = PostingEntry { doc_id: 0x0403_0201, field_id: 5, position: 0x0908_0706, tf: 0x0b0a };
    assert_eq!(entry.to_bytes(), [1, 2, 3, 4, 5, 6, 7, 8, 9, 0x0a, 0x0b, 0]);
}

#[test]
fn index_header_layout_starts_with_magic_and_version() {
    let header = IndexHeader {
        magic: index_magic(),
        version: INDEX_FORMAT_VERSION,
        ngram_count: 2,
        file_count: 3,
        created_at: 4,
    };
    let bytes = header.to_bytes();
    assert_eq!(&bytes[0..4], b"SKIM");
    assert_eq!(&bytes[4..8], &[1, 0, 0, 0]);
    assert_eq!(&bytes[8..16], &[2, 0, 0, 0, 0, 0, 0, 0]);
    assert_eq!(&bytes[16..24], &[3, 0, 0, 0, 0, 0, 0, 0]);
    assert_eq!(&bytes[24..32], &[4, 0, 0, 0, 0, 0, 0, 0]);
}

#[test]
fn index_entry_layout() {
    let entry = IndexEntry { ngram_hash: 1, posting_offset: 2, posting_length: 3 };
    let bytes = entry.to_bytes();
    assert_eq!(&bytes[0..8], &[1, 0, 0, 0, 0, 0, 0, 0]);
    assert_eq!(&bytes[8..16], &[2, 0, 0, 0, 0, 0, 0, 0]);
    assert_eq!(&bytes[16..20], &[3, 0, 0, 0]);
}

#[test]
fn fxhash_of_empty_is_zero() {
    assert_eq!(fxhash_bytes(b""), 0);
}

#[test]
fn fxhash_of_one_byte_is_byte_times_seed() {
    assert_eq!(fxhash_bytes(b"a"), 0x61u64.wrapping_mul(0x517c_c1b7_2722_0a95));
}

#[test]
fn fxhash_of_two_bytes_folds_rotate_xor_multiply() {
    let expected = {
        let h1 = 0x66u64.wrapping_mul(0x517c_c1b7_2722_0a95);
        (h1.rotate_left(5) ^ 0x6e).wrapping_mul(0x517c_c1b7_2722_0a95)
    };
    assert_eq!(fxhash_bytes(b"fn"), expected);
    assert_eq!(Ngram::from_bytes(b"fn").as_u64(), expected);
}
