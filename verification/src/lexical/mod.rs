//! Lexical search layer: character n-gram inverted index.
//!
//! Shared on-disk record types live here: [`Ngram`], [`PostingEntry`] and
//! [`IndexHeader`], each with a fixed little-endian byte layout.
pub mod index_format;
pub mod le;
pub mod builder;
pub mod ngram;
pub mod postings;
pub mod query;

use vstd::prelude::*;

use le::{
    le_u16_at, le_u32_at, le_u64_at, lemma_u64_reencode, lemma_u64_roundtrip, push_u64_le,
    read_u64_le, u64_le, lemma_u16_reencode, lemma_u16_roundtrip, lemma_u32_reencode,
    lemma_u32_roundtrip, push_u16_le, push_u32_le, read_u16_le, read_u32_le, u16_le, u32_le,
};

verus! {


/// Multiplier of the FxHash byte step.
pub const FX_SEED: u64 = 0x517c_c1b7_2722_0a95;

/// One FxHash step: rotate the state left by five bits, mix in the byte,
/// multiply by the seed modulo 2^64.
pub open spec fn fx_step(hash: u64, b: u8) -> u64 {
    (((hash << 5u64) | (hash >> 59u64)) ^ (b as u64)).wrapping_mul(FX_SEED)
}

/// FxHash of a byte sequence: the step folded over the bytes from a zero state.
pub open spec fn fx_hash(s: Seq<u8>) -> u64
    decreases s.len(),
{
    if s.len() == 0 {
        0
    } else {
        fx_step(fx_hash(s.drop_last()), s.last())
    }
}

/// FxHash for byte slices. Deterministic, non-cryptographic; the on-disk
/// index depends on it, so it must never change.
pub fn fxhash_bytes(bytes: &[u8]) -> (r: u64)
    ensures
        r == fx_hash(bytes@),
{
    let mut hash: u64 = 0;
    let mut i: usize = 0;
    while i < bytes.len()
        invariant
            i <= bytes@.len(),
            hash == fx_hash(bytes@.take(i as int)),
        decreases bytes@.len() - i,
    {
        let b = bytes[i];
        assert(bytes@.take(i as int + 1).drop_last() == bytes@.take(i as int));
        hash = (((hash << 5u64) | (hash >> 59u64)) ^ (b as u64)).wrapping_mul(FX_SEED);
        i = i + 1;
    }
    assert(bytes@.take(bytes@.len() as int) == bytes@);
    hash
}

/// Fixed-size character n-gram hash.
#[derive(Debug, Clone, Copy, PartialEq, Eq, Hash, Structural)]
pub struct Ngram(u64);

impl View for Ngram {
    type V = u64;

    closed spec fn view(&self) -> u64 {
        self.0
    }
}

impl Ngram {
    /// Hash a byte window into an `Ngram`.
    pub fn from_bytes(bytes: &[u8]) -> (r: Self)
        ensures
            r@ == fx_hash(bytes@),
    {
        Ngram(fxhash_bytes(bytes))
    }

    /// An `Ngram` with the given raw hash.
    pub fn from_hash(hash: u64) -> (r: Self)
        ensures
            r@ == hash,
    {
        Ngram(hash)
    }

    /// Return the raw hash value.
    pub fn as_u64(self) -> (r: u64)
        ensures
            r == self@,
    {
        self.0
    }
}

/// Two n-grams are equal exactly when their hashes are equal.
pub proof fn lemma_ngram_view_injective(a: Ngram, b: Ngram)
    ensures
        a@ == b@ <==> a == b,
{
}

/// Single entry in a posting list; fixed 12 bytes on disk.
#[derive(Debug, Clone, Copy, PartialEq, Eq, Structural)]
pub struct PostingEntry {
    /// File identifier truncated to `u32`.
    pub doc_id: u32,
    /// `SearchField` code.
    pub field_id: u8,
    /// Byte offset of this n-gram occurrence in the source file.
    pub position: u32,
    /// Term frequency of this n-gram in this field of this document.
    pub tf: u16,
}

/// Size of a single [`PostingEntry`] on disk, in bytes.
pub const POSTING_ENTRY_SIZE: usize = 12;

/// On-disk bytes of a posting: doc_id, field_id, position, tf, one zero pad byte.
pub open spec fn posting_bytes(e: PostingEntry) -> Seq<u8> {
    u32_le(e.doc_id) + seq![e.field_id] + u32_le(e.position) + u16_le(e.tf) + seq![0u8]
}

/// The posting decoded from the first 12 bytes of `s`.
pub open spec fn parse_posting_at(s: Seq<u8>, at: int) -> PostingEntry {
    PostingEntry {
        doc_id: le_u32_at(s, at),
        field_id: s[at + 4],
        position: le_u32_at(s, at + 5),
        tf: le_u16_at(s, at + 9),
    }
}

impl PostingEntry {
    /// Serialize to the fixed 12-byte little-endian layout.
    pub fn to_bytes(self) -> (r: [u8; POSTING_ENTRY_SIZE])
        ensures
            r@ == posting_bytes(self),
    {
        let d = self.doc_id;
        let p = self.position;
        let t = self.tf;
        let r = [
            (d & 0xff) as u8,
            ((d >> 8u32) & 0xff) as u8,
            ((d >> 16u32) & 0xff) as u8,
            ((d >> 24u32) & 0xff) as u8,
            self.field_id,
            (p & 0xff) as u8,
            ((p >> 8u32) & 0xff) as u8,
            ((p >> 16u32) & 0xff) as u8,
            ((p >> 24u32) & 0xff) as u8,
            (t & 0xff) as u8,
            ((t >> 8u16) & 0xff) as u8,
            0u8,
        ];
        assert(r@ =~= posting_bytes(self));
        r
    }

    /// Deserialize from the first 12 bytes of a slice; `None` if it is shorter.
    pub fn from_bytes(bytes: &[u8]) -> (r: Option<Self>)
        ensures
            r == (if bytes@.len() < POSTING_ENTRY_SIZE {
                None
            } else {
                Some(parse_posting_at(bytes@, 0))
            }),
    {
        if bytes.len() < POSTING_ENTRY_SIZE {
            return None;
        }
        Some(Self::read_at(bytes, 0))
    }

    /// Decode the posting stored at `bytes[at..at + 12]`.
    pub fn read_at(bytes: &[u8], at: usize) -> (r: Self)
        requires
            at + POSTING_ENTRY_SIZE <= bytes@.len(),
        ensures
            r == parse_posting_at(bytes@, at as int),
    {
        proof {
            assert(bytes@.len() == bytes.len());
        }
        PostingEntry {
            doc_id: read_u32_le(bytes, at),
            field_id: bytes[at + 4],
            position: read_u32_le(bytes, at + 5),
            tf: read_u16_le(bytes, at + 9),
        }
    }

    /// Append the 12 on-disk bytes of this posting to `out`.
    pub fn write_to(self, out: &mut Vec<u8>)
        ensures
            final(out)@ == old(out)@ + posting_bytes(self),
    {
        push_u32_le(out, self.doc_id);
        out.push(self.field_id);
        push_u32_le(out, self.position);
        push_u16_le(out, self.tf);
        out.push(0u8);
        assert(final(out)@ =~= old(out)@ + posting_bytes(self));
    }
}

/// Decoding a posting's bytes, wherever they stand, gives the posting back.
pub proof fn lemma_posting_roundtrip(e: PostingEntry, prefix: Seq<u8>, suffix: Seq<u8>)
    ensures
        posting_bytes(e).len() == POSTING_ENTRY_SIZE,
        parse_posting_at(prefix + posting_bytes(e) + suffix, prefix.len() as int) == e,
{
    let s = prefix + posting_bytes(e) + suffix;
    let p = prefix.len() as int;
    lemma_u32_roundtrip(e.doc_id, prefix, seq![e.field_id] + u32_le(e.position) + u16_le(e.tf) + seq![0u8] + suffix);
    assert(s == prefix + u32_le(e.doc_id) + (seq![e.field_id] + u32_le(e.position) + u16_le(e.tf) + seq![0u8] + suffix));
    lemma_u32_roundtrip(e.position, prefix + u32_le(e.doc_id) + seq![e.field_id], u16_le(e.tf) + seq![0u8] + suffix);
    assert(s == (prefix + u32_le(e.doc_id) + seq![e.field_id]) + u32_le(e.position) + (u16_le(e.tf) + seq![0u8] + suffix));
    lemma_u16_roundtrip(e.tf, prefix + u32_le(e.doc_id) + seq![e.field_id] + u32_le(e.position), seq![0u8] + suffix);
    assert(s == (prefix + u32_le(e.doc_id) + seq![e.field_id] + u32_le(e.position)) + u16_le(e.tf) + (seq![0u8] + suffix));
    assert(s[p + 4] == e.field_id);
}

/// Twelve bytes whose pad byte is zero are exactly the bytes of the posting
/// decoded from them.
pub proof fn lemma_posting_reencode(s: Seq<u8>)
    requires
        s.len() == POSTING_ENTRY_SIZE,
        s[11] == 0,
    ensures
        posting_bytes(parse_posting_at(s, 0)) == s,
{
    lemma_u32_reencode(s, 0);
    lemma_u32_reencode(s, 5);
    lemma_u16_reencode(s, 9);
    assert(posting_bytes(parse_posting_at(s, 0)) =~= s);
}

/// On-disk index header; fixed 32 bytes, versioned.
#[derive(Debug, Clone, Copy, PartialEq, Eq)]
pub struct IndexHeader {
    /// Magic bytes: `b"SKIM"`.
    pub magic: [u8; 4],
    /// Format version.
    pub version: u32,
    /// Number of unique n-grams in the index.
    pub ngram_count: u64,
    /// Number of indexed files.
    pub file_count: u64,
    /// Unix timestamp (seconds) when the index was created.
    pub created_at: u64,
}

/// Size of the [`IndexHeader`] on disk, in bytes.
pub const INDEX_HEADER_SIZE: usize = 32;

/// Current index format version.
pub const INDEX_FORMAT_VERSION: u32 = 1;

/// The magic bytes `b"SKIM"` that open every index file, as a sequence.
pub open spec fn magic_bytes() -> Seq<u8> {
    seq![0x53u8, 0x4bu8, 0x49u8, 0x4du8]
}

/// The magic bytes `b"SKIM"` that open every index file.
pub fn index_magic() -> (r: [u8; 4])
    ensures
        r@ == magic_bytes(),
{
    let r = [0x53u8, 0x4bu8, 0x49u8, 0x4du8];
    assert(r@ =~= magic_bytes());
    r
}

/// On-disk bytes of a header: magic, version, ngram_count, file_count, created_at.
pub open spec fn header_bytes(h: IndexHeader) -> Seq<u8> {
    h.magic@ + u32_le(h.version) + u64_le(h.ngram_count) + u64_le(h.file_count) + u64_le(
        h.created_at,
    )
}

/// The header fields decoded from `s[0..32]`, with the magic given as a sequence.
pub open spec fn header_fields_match(h: IndexHeader, s: Seq<u8>) -> bool {
    &&& h.magic@ == s.subrange(0, 4)
    &&& h.version == le_u32_at(s, 4)
    &&& h.ngram_count == le_u64_at(s, 8)
    &&& h.file_count == le_u64_at(s, 16)
    &&& h.created_at == le_u64_at(s, 24)
}

impl IndexHeader {
    /// Serialize to the fixed 32-byte little-endian layout.
    pub fn to_bytes(self) -> (r: [u8; INDEX_HEADER_SIZE])
        ensures
            r@ == header_bytes(self),
    {
        let v = self.version;
        let n = self.ngram_count;
        let f = self.file_count;
        let c = self.created_at;
        let r = [
            self.magic[0],
            self.magic[1],
            self.magic[2],
            self.magic[3],
            (v & 0xff) as u8,
            ((v >> 8u32) & 0xff) as u8,
            ((v >> 16u32) & 0xff) as u8,
            ((v >> 24u32) & 0xff) as u8,
            (n & 0xff) as u8,
            ((n >> 8u64) & 0xff) as u8,
            ((n >> 16u64) & 0xff) as u8,
            ((n >> 24u64) & 0xff) as u8,
            ((n >> 32u64) & 0xff) as u8,
            ((n >> 40u64) & 0xff) as u8,
            ((n >> 48u64) & 0xff) as u8,
            ((n >> 56u64) & 0xff) as u8,
            (f & 0xff) as u8,
            ((f >> 8u64) & 0xff) as u8,
            ((f >> 16u64) & 0xff) as u8,
            ((f >> 24u64) & 0xff) as u8,
            ((f >> 32u64) & 0xff) as u8,
            ((f >> 40u64) & 0xff) as u8,
            ((f >> 48u64) & 0xff) as u8,
            ((f >> 56u64) & 0xff) as u8,
            (c & 0xff) as u8,
            ((c >> 8u64) & 0xff) as u8,
            ((c >> 16u64) & 0xff) as u8,
            ((c >> 24u64) & 0xff) as u8,
            ((c >> 32u64) & 0xff) as u8,
            ((c >> 40u64) & 0xff) as u8,
            ((c >> 48u64) & 0xff) as u8,
            ((c >> 56u64) & 0xff) as u8,
        ];
        assert(self.magic@ =~= seq![self.magic[0], self.magic[1], self.magic[2], self.magic[3]]);
        assert(r@ =~= header_bytes(self));
        r
    }

    /// Append the 32 on-disk bytes of this header to `out`.
    pub fn write_to(self, out: &mut Vec<u8>)
        ensures
            final(out)@ == old(out)@ + header_bytes(self),
    {
        out.push(self.magic[0]);
        out.push(self.magic[1]);
        out.push(self.magic[2]);
        out.push(self.magic[3]);
        push_u32_le(out, self.version);
        push_u64_le(out, self.ngram_count);
        push_u64_le(out, self.file_count);
        push_u64_le(out, self.created_at);
        assert(self.magic@ =~= seq![self.magic[0], self.magic[1], self.magic[2], self.magic[3]]);
        assert(final(out)@ =~= old(out)@ + header_bytes(self));
    }

    /// Deserialize from the first 32 bytes of a slice; `None` if it is shorter.
    pub fn from_bytes(bytes: &[u8]) -> (r: Option<Self>)
        ensures
            bytes@.len() < INDEX_HEADER_SIZE <==> r is None,
            r matches Some(h) ==> header_fields_match(h, bytes@),
    {
        if bytes.len() < INDEX_HEADER_SIZE {
            return None;
        }
        let magic = [bytes[0], bytes[1], bytes[2], bytes[3]];
        let h = IndexHeader {
            magic,
            version: read_u32_le(bytes, 4),
            ngram_count: read_u64_le(bytes, 8),
            file_count: read_u64_le(bytes, 16),
            created_at: read_u64_le(bytes, 24),
        };
        assert(h.magic@ =~= bytes@.subrange(0, 4));
        Some(h)
    }
}

/// Decoding a header's bytes gives the header back.
pub proof fn lemma_header_roundtrip(h: IndexHeader, suffix: Seq<u8>)
    ensures
        header_bytes(h).len() == INDEX_HEADER_SIZE,
        header_fields_match(h, header_bytes(h) + suffix),
{
    let a = h.magic@;
    let v = u32_le(h.version);
    let n = u64_le(h.ngram_count);
    let f = u64_le(h.file_count);
    let c = u64_le(h.created_at);
    let s = header_bytes(h) + suffix;
    lemma_u32_roundtrip(h.version, a, n + f + c + suffix);
    assert(s == a + v + (n + f + c + suffix));
    lemma_u64_roundtrip(h.ngram_count, a + v, f + c + suffix);
    assert(s == (a + v) + n + (f + c + suffix));
    lemma_u64_roundtrip(h.file_count, a + v + n, c + suffix);
    assert(s == (a + v + n) + f + (c + suffix));
    lemma_u64_roundtrip(h.created_at, a + v + n + f, suffix);
    assert(s == (a + v + n + f) + c + suffix);
    assert(s.subrange(0, 4) =~= a);
}

/// A header is determined by its fields: two headers matching the same
/// bytes are equal, and the bytes of a header matching `s` are `s[0..32]`.
pub proof fn lemma_header_reencode(h: IndexHeader, s: Seq<u8>)
    requires
        s.len() >= INDEX_HEADER_SIZE,
        header_fields_match(h, s),
    ensures
        header_bytes(h) == s.subrange(0, INDEX_HEADER_SIZE as int),
{
    lemma_u32_reencode(s, 4);
    lemma_u64_reencode(s, 8);
    lemma_u64_reencode(s, 16);
    lemma_u64_reencode(s, 24);
    assert(header_bytes(h) =~= s.subrange(0, INDEX_HEADER_SIZE as int));
}

} // verus!
