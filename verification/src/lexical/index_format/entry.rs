//! [`IndexEntry`]: the 20-byte record of the lookup table.
use vstd::prelude::*;

use crate::lexical::le::{
    le_u32_at, le_u64_at, lemma_u32_reencode, lemma_u32_roundtrip, lemma_u64_reencode,
    lemma_u64_roundtrip, read_u32_le, read_u64_le, u32_le, u64_le,
};

verus! {

/// Single entry in the lookup table: 20 bytes on disk.
#[derive(Debug, Clone, Copy, PartialEq, Eq, Structural)]
pub struct IndexEntry {
    /// Hash of the n-gram; the table is sorted by it.
    pub ngram_hash: u64,
    /// Byte offset into the postings file where this n-gram's postings begin.
    pub posting_offset: u64,
    /// Number of postings in this n-gram's posting list.
    pub posting_length: u32,
}

/// Size of a single [`IndexEntry`] on disk, in bytes.
pub const INDEX_ENTRY_SIZE: usize = 20;

/// On-disk bytes of an entry: hash, offset, length.
pub open spec fn entry_bytes(e: IndexEntry) -> Seq<u8> {
    u64_le(e.ngram_hash) + u64_le(e.posting_offset) + u32_le(e.posting_length)
}

/// The entry decoded from `s[at..at + 20]`.
pub open spec fn parse_entry_at(s: Seq<u8>, at: int) -> IndexEntry {
    IndexEntry {
        ngram_hash: le_u64_at(s, at),
        posting_offset: le_u64_at(s, at + 8),
        posting_length: le_u32_at(s, at + 16),
    }
}

impl IndexEntry {
    /// Serialize to the fixed 20-byte little-endian layout.
    pub fn to_bytes(self) -> (r: [u8; INDEX_ENTRY_SIZE])
        ensures
            r@ == entry_bytes(self),
    {
        let h = self.ngram_hash;
        let o = self.posting_offset;
        let l = self.posting_length;
        let r = [
            (h & 0xff) as u8,
            ((h >> 8u64) & 0xff) as u8,
            ((h >> 16u64) & 0xff) as u8,
            ((h >> 24u64) & 0xff) as u8,
            ((h >> 32u64) & 0xff) as u8,
            ((h >> 40u64) & 0xff) as u8,
            ((h >> 48u64) & 0xff) as u8,
            ((h >> 56u64) & 0xff) as u8,
            (o & 0xff) as u8,
            ((o >> 8u64) & 0xff) as u8,
            ((o >> 16u64) & 0xff) as u8,
            ((o >> 24u64) & 0xff) as u8,
            ((o >> 32u64) & 0xff) as u8,
            ((o >> 40u64) & 0xff) as u8,
            ((o >> 48u64) & 0xff) as u8,
            ((o >> 56u64) & 0xff) as u8,
            (l & 0xff) as u8,
            ((l >> 8u32) & 0xff) as u8,
            ((l >> 16u32) & 0xff) as u8,
            ((l >> 24u32) & 0xff) as u8,
        ];
        assert(r@ =~= entry_bytes(self));
        r
    }

    /// Deserialize from the first 20 bytes of a slice; `None` if it is shorter.
    pub fn from_bytes(bytes: &[u8]) -> (r: Option<Self>)
        ensures
            r == (if bytes@.len() < INDEX_ENTRY_SIZE {
                None
            } else {
                Some(parse_entry_at(bytes@, 0))
            }),
    {
        if bytes.len() < INDEX_ENTRY_SIZE {
            return None;
        }
        Some(Self::read_at(bytes, 0))
    }

    /// Decode the entry stored at `bytes[at..at + 20]`.
    pub fn read_at(bytes: &[u8], at: usize) -> (r: Self)
        requires
            at + INDEX_ENTRY_SIZE <= bytes@.len(),
        ensures
            r == parse_entry_at(bytes@, at as int),
    {
        proof {
            assert(bytes@.len() == bytes.len());
        }
        IndexEntry {
            ngram_hash: read_u64_le(bytes, at),
            posting_offset: read_u64_le(bytes, at + 8),
            posting_length: read_u32_le(bytes, at + 16),
        }
    }
}

/// Decoding an entry's bytes, wherever they stand, gives the entry back.
pub proof fn lemma_entry_roundtrip(e: IndexEntry, prefix: Seq<u8>, suffix: Seq<u8>)
    ensures
        entry_bytes(e).len() == INDEX_ENTRY_SIZE,
        parse_entry_at(prefix + entry_bytes(e) + suffix, prefix.len() as int) == e,
{
    let h = u64_le(e.ngram_hash);
    let o = u64_le(e.posting_offset);
    let l = u32_le(e.posting_length);
    let s = prefix + entry_bytes(e) + suffix;
    lemma_u64_roundtrip(e.ngram_hash, prefix, o + l + suffix);
    assert(s == prefix + h + (o + l + suffix));
    lemma_u64_roundtrip(e.posting_offset, prefix + h, l + suffix);
    assert(s == (prefix + h) + o + (l + suffix));
    lemma_u32_roundtrip(e.posting_length, prefix + h + o, suffix);
    assert(s == (prefix + h + o) + l + suffix);
}

/// Twenty bytes are exactly the bytes of the entry decoded from them.
pub proof fn lemma_entry_reencode(s: Seq<u8>)
    requires
        s.len() == INDEX_ENTRY_SIZE,
    ensures
        entry_bytes(parse_entry_at(s, 0)) == s,
{
    lemma_u64_reencode(s, 0);
    lemma_u64_reencode(s, 8);
    lemma_u32_reencode(s, 16);
    assert(entry_bytes(parse_entry_at(s, 0)) =~= s);
}

} // verus!
