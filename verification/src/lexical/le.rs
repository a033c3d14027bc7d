//! Little-endian byte encodings of fixed-width integers, with their
//! round-trip laws.
use vstd::prelude::*;

verus! {

/// Little-endian bytes of a `u16`.
pub open spec fn u16_le(x: u16) -> Seq<u8> {
    seq![(x & 0xff) as u8, ((x >> 8u16) & 0xff) as u8]
}

/// Little-endian bytes of a `u32`.
pub open spec fn u32_le(x: u32) -> Seq<u8> {
    seq![
        (x & 0xff) as u8,
        ((x >> 8u32) & 0xff) as u8,
        ((x >> 16u32) & 0xff) as u8,
        ((x >> 24u32) & 0xff) as u8,
    ]
}

/// Little-endian bytes of a `u64`.
pub open spec fn u64_le(x: u64) -> Seq<u8> {
    seq![
        (x & 0xff) as u8,
        ((x >> 8u64) & 0xff) as u8,
        ((x >> 16u64) & 0xff) as u8,
        ((x >> 24u64) & 0xff) as u8,
        ((x >> 32u64) & 0xff) as u8,
        ((x >> 40u64) & 0xff) as u8,
        ((x >> 48u64) & 0xff) as u8,
        ((x >> 56u64) & 0xff) as u8,
    ]
}

/// The `u16` stored little-endian at `s[at..at + 2]`.
pub open spec fn le_u16_at(s: Seq<u8>, at: int) -> u16 {
    (s[at] as u16) | ((s[at + 1] as u16) << 8u16)
}

/// The `u32` stored little-endian at `s[at..at + 4]`.
pub open spec fn le_u32_at(s: Seq<u8>, at: int) -> u32 {
    (s[at] as u32) | ((s[at + 1] as u32) << 8u32) | ((s[at + 2] as u32) << 16u32) | ((
    s[at + 3] as u32) << 24u32)
}

/// The `u64` stored little-endian at `s[at..at + 8]`.
pub open spec fn le_u64_at(s: Seq<u8>, at: int) -> u64 {
    (s[at] as u64) | ((s[at + 1] as u64) << 8u64) | ((s[at + 2] as u64) << 16u64) | ((
    s[at + 3] as u64) << 24u64) | ((s[at + 4] as u64) << 32u64) | ((s[at + 5] as u64) << 40u64)
        | ((s[at + 6] as u64) << 48u64) | ((s[at + 7] as u64) << 56u64)
}

proof fn lemma_bits_u16(x: u16)
    ensures
        ((x & 0xff) as u8 as u16) | ((((x >> 8u16) & 0xff) as u8 as u16) << 8u16) == x,
{
    assert(((x & 0xff) as u8 as u16) | ((((x >> 8u16) & 0xff) as u8 as u16) << 8u16) == x)
        by (bit_vector);
}

proof fn lemma_bits_u16_rev(a: u8, b: u8)
    ensures
        (((a as u16) | ((b as u16) << 8u16)) & 0xff) as u8 == a,
        ((((a as u16) | ((b as u16) << 8u16)) >> 8u16) & 0xff) as u8 == b,
{
    assert((((a as u16) | ((b as u16) << 8u16)) & 0xff) as u8 == a) by (bit_vector);
    assert(((((a as u16) | ((b as u16) << 8u16)) >> 8u16) & 0xff) as u8 == b) by (bit_vector);
}

/// Decoding the encoding of a `u16` gives it back, at any offset.
pub proof fn lemma_u16_roundtrip(x: u16, prefix: Seq<u8>, suffix: Seq<u8>)
    ensures
        u16_le(x).len() == 2,
        le_u16_at(prefix + u16_le(x) + suffix, prefix.len() as int) == x,
{
    lemma_bits_u16(x);
    let s = prefix + u16_le(x) + suffix;
    assert(s[prefix.len() as int] == u16_le(x)[0]);
    assert(s[prefix.len() as int + 1] == u16_le(x)[1]);
}

/// Encoding the `u16` read at an offset gives back the bytes it was read from.
pub proof fn lemma_u16_reencode(s: Seq<u8>, at: int)
    requires
        0 <= at,
        at + 2 <= s.len(),
    ensures
        u16_le(le_u16_at(s, at)) == s.subrange(at, at + 2),
{
    lemma_bits_u16_rev(s[at], s[at + 1]);
    assert(u16_le(le_u16_at(s, at)) =~= s.subrange(at, at + 2));
}

proof fn lemma_bits_u32(x: u32)
    ensures
        ((x & 0xff) as u8 as u32) | ((((x >> 8u32) & 0xff) as u8 as u32) << 8u32) | ((((x >> 16u32)
            & 0xff) as u8 as u32) << 16u32) | ((((x >> 24u32) & 0xff) as u8 as u32) << 24u32) == x,
{
    assert(((x & 0xff) as u8 as u32) | ((((x >> 8u32) & 0xff) as u8 as u32) << 8u32) | ((((x
        >> 16u32) & 0xff) as u8 as u32) << 16u32) | ((((x >> 24u32) & 0xff) as u8 as u32) << 24u32)
        == x) by (bit_vector);
}

proof fn lemma_bits_u32_rev(a: u8, b: u8, c: u8, d: u8)
    ensures
        ({
            let x = (a as u32) | ((b as u32) << 8u32) | ((c as u32) << 16u32) | ((d as u32)
                << 24u32);
            &&& (x & 0xff) as u8 == a
            &&& ((x >> 8u32) & 0xff) as u8 == b
            &&& ((x >> 16u32) & 0xff) as u8 == c
            &&& ((x >> 24u32) & 0xff) as u8 == d
        }),
{
    assert({
        let x = (a as u32) | ((b as u32) << 8u32) | ((c as u32) << 16u32) | ((d as u32) << 24u32);
        &&& (x & 0xff) as u8 == a
        &&& ((x >> 8u32) & 0xff) as u8 == b
        &&& ((x >> 16u32) & 0xff) as u8 == c
        &&& ((x >> 24u32) & 0xff) as u8 == d
    }) by (bit_vector);
}

/// Decoding the encoding of a `u32` gives it back, at any offset.
pub proof fn lemma_u32_roundtrip(x: u32, prefix: Seq<u8>, suffix: Seq<u8>)
    ensures
        u32_le(x).len() == 4,
        le_u32_at(prefix + u32_le(x) + suffix, prefix.len() as int) == x,
{
    lemma_bits_u32(x);
    let s = prefix + u32_le(x) + suffix;
    let p = prefix.len() as int;
    assert(s[p] == u32_le(x)[0]);
    assert(s[p + 1] == u32_le(x)[1]);
    assert(s[p + 2] == u32_le(x)[2]);
    assert(s[p + 3] == u32_le(x)[3]);
}

/// Encoding the `u32` read at an offset gives back the bytes it was read from.
pub proof fn lemma_u32_reencode(s: Seq<u8>, at: int)
    requires
        0 <= at,
        at + 4 <= s.len(),
    ensures
        u32_le(le_u32_at(s, at)) == s.subrange(at, at + 4),
{
    lemma_bits_u32_rev(s[at], s[at + 1], s[at + 2], s[at + 3]);
    assert(u32_le(le_u32_at(s, at)) =~= s.subrange(at, at + 4));
}

proof fn lemma_bits_u64(x: u64)
    ensures
        ((x & 0xff) as u8 as u64) | ((((x >> 8u64) & 0xff) as u8 as u64) << 8u64) | ((((x >> 16u64)
            & 0xff) as u8 as u64) << 16u64) | ((((x >> 24u64) & 0xff) as u8 as u64) << 24u64) | ((((x
            >> 32u64) & 0xff) as u8 as u64) << 32u64) | ((((x >> 40u64) & 0xff) as u8 as u64)
            << 40u64) | ((((x >> 48u64) & 0xff) as u8 as u64) << 48u64) | ((((x >> 56u64) & 0xff)
            as u8 as u64) << 56u64) == x,
{
    assert(((x & 0xff) as u8 as u64) | ((((x >> 8u64) & 0xff) as u8 as u64) << 8u64) | ((((x
        >> 16u64) & 0xff) as u8 as u64) << 16u64) | ((((x >> 24u64) & 0xff) as u8 as u64) << 24u64)
        | ((((x >> 32u64) & 0xff) as u8 as u64) << 32u64) | ((((x >> 40u64) & 0xff) as u8 as u64)
        << 40u64) | ((((x >> 48u64) & 0xff) as u8 as u64) << 48u64) | ((((x >> 56u64) & 0xff)
        as u8 as u64) << 56u64) == x) by (bit_vector);
}

proof fn lemma_bits_u64_rev(a: u8, b: u8, c: u8, d: u8, e: u8, f: u8, g: u8, h: u8)
    ensures
        ({
            let x = (a as u64) | ((b as u64) << 8u64) | ((c as u64) << 16u64) | ((d as u64)
                << 24u64) | ((e as u64) << 32u64) | ((f as u64) << 40u64) | ((g as u64) << 48u64) | ((
            h as u64) << 56u64);
            &&& (x & 0xff) as u8 == a
            &&& ((x >> 8u64) & 0xff) as u8 == b
            &&& ((x >> 16u64) & 0xff) as u8 == c
            &&& ((x >> 24u64) & 0xff) as u8 == d
            &&& ((x >> 32u64) & 0xff) as u8 == e
            &&& ((x >> 40u64) & 0xff) as u8 == f
            &&& ((x >> 48u64) & 0xff) as u8 == g
            &&& ((x >> 56u64) & 0xff) as u8 == h
        }),
{
    assert({
        let x = (a as u64) | ((b as u64) << 8u64) | ((c as u64) << 16u64) | ((d as u64) << 24u64)
            | ((e as u64) << 32u64) | ((f as u64) << 40u64) | ((g as u64) << 48u64) | ((h as u64)
            << 56u64);
        &&& (x & 0xff) as u8 == a
        &&& ((x >> 8u64) & 0xff) as u8 == b
        &&& ((x >> 16u64) & 0xff) as u8 == c
        &&& ((x >> 24u64) & 0xff) as u8 == d
        &&& ((x >> 32u64) & 0xff) as u8 == e
        &&& ((x >> 40u64) & 0xff) as u8 == f
        &&& ((x >> 48u64) & 0xff) as u8 == g
        &&& ((x >> 56u64) & 0xff) as u8 == h
    }) by (bit_vector);
}

/// Decoding the encoding of a `u64` gives it back, at any offset.
pub proof fn lemma_u64_roundtrip(x: u64, prefix: Seq<u8>, suffix: Seq<u8>)
    ensures
        u64_le(x).len() == 8,
        le_u64_at(prefix + u64_le(x) + suffix, prefix.len() as int) == x,
{
    lemma_bits_u64(x);
    let s = prefix + u64_le(x) + suffix;
    let p = prefix.len() as int;
    assert(s[p] == u64_le(x)[0]);
    assert(s[p + 1] == u64_le(x)[1]);
    assert(s[p + 2] == u64_le(x)[2]);
    assert(s[p + 3] == u64_le(x)[3]);
    assert(s[p + 4] == u64_le(x)[4]);
    assert(s[p + 5] == u64_le(x)[5]);
    assert(s[p + 6] == u64_le(x)[6]);
    assert(s[p + 7] == u64_le(x)[7]);
}

/// Encoding the `u64` read at an offset gives back the bytes it was read from.
pub proof fn lemma_u64_reencode(s: Seq<u8>, at: int)
    requires
        0 <= at,
        at + 8 <= s.len(),
    ensures
        u64_le(le_u64_at(s, at)) == s.subrange(at, at + 8),
{
    lemma_bits_u64_rev(
        s[at],
        s[at + 1],
        s[at + 2],
        s[at + 3],
        s[at + 4],
        s[at + 5],
        s[at + 6],
        s[at + 7],
    );
    assert(u64_le(le_u64_at(s, at)) =~= s.subrange(at, at + 8));
}

/// Read the little-endian `u16` at `bytes[at..at + 2]`.
pub fn read_u16_le(bytes: &[u8], at: usize) -> (r: u16)
    requires
        at + 2 <= bytes@.len(),
    ensures
        r == le_u16_at(bytes@, at as int),
{
    (bytes[at] as u16) | ((bytes[at + 1] as u16) << 8u16)
}

/// Read the little-endian `u32` at `bytes[at..at + 4]`.
pub fn read_u32_le(bytes: &[u8], at: usize) -> (r: u32)
    requires
        at + 4 <= bytes@.len(),
    ensures
        r == le_u32_at(bytes@, at as int),
{
    (bytes[at] as u32) | ((bytes[at + 1] as u32) << 8u32) | ((bytes[at + 2] as u32) << 16u32) | ((
    bytes[at + 3] as u32) << 24u32)
}

/// Read the little-endian `u64` at `bytes[at..at + 8]`.
pub fn read_u64_le(bytes: &[u8], at: usize) -> (r: u64)
    requires
        at + 8 <= bytes@.len(),
    ensures
        r == le_u64_at(bytes@, at as int),
{
    (bytes[at] as u64) | ((bytes[at + 1] as u64) << 8u64) | ((bytes[at + 2] as u64) << 16u64) | ((
    bytes[at + 3] as u64) << 24u64) | ((bytes[at + 4] as u64) << 32u64) | ((bytes[at + 5] as u64)
        << 40u64) | ((bytes[at + 6] as u64) << 48u64) | ((bytes[at + 7] as u64) << 56u64)
}

/// Append the little-endian bytes of `x` to `out`.
pub fn push_u16_le(out: &mut Vec<u8>, x: u16)
    ensures
        final(out)@ == old(out)@ + u16_le(x),
{
    out.push((x & 0xff) as u8);
    out.push(((x >> 8u16) & 0xff) as u8);
    assert(final(out)@ =~= old(out)@ + u16_le(x));
}

/// Append the little-endian bytes of `x` to `out`.
pub fn push_u32_le(out: &mut Vec<u8>, x: u32)
    ensures
        final(out)@ == old(out)@ + u32_le(x),
{
    out.push((x & 0xff) as u8);
    out.push(((x >> 8u32) & 0xff) as u8);
    out.push(((x >> 16u32) & 0xff) as u8);
    out.push(((x >> 24u32) & 0xff) as u8);
    assert(final(out)@ =~= old(out)@ + u32_le(x));
}

/// Append the little-endian bytes of `x` to `out`.
pub fn push_u64_le(out: &mut Vec<u8>, x: u64)
    ensures
        final(out)@ == old(out)@ + u64_le(x),
{
    out.push((x & 0xff) as u8);
    out.push(((x >> 8u64) & 0xff) as u8);
    out.push(((x >> 16u64) & 0xff) as u8);
    out.push(((x >> 24u64) & 0xff) as u8);
    out.push(((x >> 32u64) & 0xff) as u8);
    out.push(((x >> 40u64) & 0xff) as u8);
    out.push(((x >> 48u64) & 0xff) as u8);
    out.push(((x >> 56u64) & 0xff) as u8);
    assert(final(out)@ =~= old(out)@ + u64_le(x));
}

} // verus!
