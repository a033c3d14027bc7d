//! Byte-level text helpers: Unicode whitespace trimming and byte search.
//!
//! Text is handled as its UTF-8 bytes. A whitespace character is one with
//! the Unicode `White_Space` property, matched by its UTF-8 encoding.
use vstd::prelude::*;

verus! {

/// An ASCII whitespace byte: tab, line feed, vertical tab, form feed,
/// carriage return or space.
pub open spec fn is_ascii_ws(b: u8) -> bool {
    b == 0x20 || (0x09 <= b && b <= 0x0d)
}

/// The second bytes of the two-byte whitespace characters U+0085, U+00A0
/// (after a leading 0xC2).
pub open spec fn is_ws2_tail(b: u8) -> bool {
    b == 0x85 || b == 0xa0
}

/// The three-byte whitespace characters: U+1680, U+2000..U+200A, U+2028,
/// U+2029, U+202F, U+205F and U+3000.
pub open spec fn is_ws3(a: u8, b: u8, c: u8) -> bool {
    (a == 0xe1 && b == 0x9a && c == 0x80) || (a == 0xe2 && b == 0x80 && ((0x80 <= c && c <= 0x8a)
        || c == 0xa8 || c == 0xa9 || c == 0xaf)) || (a == 0xe2 && b == 0x81 && c == 0x9f) || (a
        == 0xe3 && b == 0x80 && c == 0x80)
}

/// Byte length of the whitespace character that starts `s`, or 0.
pub open spec fn ws_prefix_len(s: Seq<u8>) -> int {
    if s.len() >= 1 && is_ascii_ws(s[0]) {
        1
    } else if s.len() >= 2 && s[0] == 0xc2 && is_ws2_tail(s[1]) {
        2
    } else if s.len() >= 3 && is_ws3(s[0], s[1], s[2]) {
        3
    } else {
        0
    }
}

/// Byte length of the whitespace character that ends `s`, or 0.
pub open spec fn ws_suffix_len(s: Seq<u8>) -> int {
    let n = s.len() as int;
    if n >= 1 && is_ascii_ws(s[n - 1]) {
        1
    } else if n >= 2 && s[n - 2] == 0xc2 && is_ws2_tail(s[n - 1]) {
        2
    } else if n >= 3 && is_ws3(s[n - 3], s[n - 2], s[n - 1]) {
        3
    } else {
        0
    }
}

/// `s` without its leading whitespace characters.
pub open spec fn trim_start(s: Seq<u8>) -> Seq<u8>
    decreases s.len(),
{
    if ws_prefix_len(s) > 0 {
        trim_start(s.skip(ws_prefix_len(s)))
    } else {
        s
    }
}

/// `s` without its trailing whitespace characters.
pub open spec fn trim_end(s: Seq<u8>) -> Seq<u8>
    decreases s.len(),
{
    if ws_suffix_len(s) > 0 {
        trim_end(s.take(s.len() - ws_suffix_len(s)))
    } else {
        s
    }
}

/// `s` without leading and trailing whitespace characters, as `str::trim`.
pub open spec fn trim(s: Seq<u8>) -> Seq<u8> {
    trim_end(trim_start(s))
}

/// Index of the first `b` in `s` at or after `from`, or `s.len()` if none.
pub open spec fn first_from(s: Seq<u8>, from: int, b: u8) -> int
    decreases s.len() - from,
{
    if from >= s.len() {
        s.len() as int
    } else if from >= 0 && s[from] == b {
        from
    } else {
        first_from(s, from + 1, b)
    }
}

/// `first_from` lies between `from` and the end, finds `b` there, and
/// skips no `b`.
pub proof fn lemma_first_from(s: Seq<u8>, from: int, b: u8)
    requires
        0 <= from <= s.len(),
    ensures
        from <= first_from(s, from, b) <= s.len(),
        first_from(s, from, b) < s.len() ==> s[first_from(s, from, b)] == b,
        forall|k: int| from <= k < first_from(s, from, b) ==> s[k] != b,
    decreases s.len() - from,
{
    if from < s.len() && s[from] != b {
        lemma_first_from(s, from + 1, b);
    }
}

/// The index of the first `b` in `s` at or after `from`, or `s.len()`.
pub fn find_from(s: &[u8], from: usize, b: u8) -> (r: usize)
    requires
        from <= s@.len(),
    ensures
        r == first_from(s@, from as int, b),
{
    let mut i = from;
    proof {
        lemma_first_from(s@, from as int, b);
    }
    while i < s.len()
        invariant
            from <= i <= s@.len(),
            first_from(s@, from as int, b) == first_from(s@, i as int, b),
        decreases s@.len() - i,
    {
        if s[i] == b {
            return i;
        }
        i = i + 1;
    }
    i
}

/// Byte length of the whitespace character at `s[i..]`, or 0.
fn ws_len_at(s: &[u8], i: usize, end: usize) -> (r: usize)
    requires
        i <= end <= s@.len(),
    ensures
        r == ws_prefix_len(s@.subrange(i as int, end as int)),
{
    if end - i >= 1 && (s[i] == 0x20 || (0x09 <= s[i] && s[i] <= 0x0d)) {
        1
    } else if end - i >= 2 && s[i] == 0xc2 && (s[i + 1] == 0x85 || s[i + 1] == 0xa0) {
        2
    } else if end - i >= 3 && ((s[i] == 0xe1 && s[i + 1] == 0x9a && s[i + 2] == 0x80) || (s[i]
        == 0xe2 && s[i + 1] == 0x80 && ((0x80 <= s[i + 2] && s[i + 2] <= 0x8a) || s[i + 2] == 0xa8
        || s[i + 2] == 0xa9 || s[i + 2] == 0xaf)) || (s[i] == 0xe2 && s[i + 1] == 0x81 && s[i + 2]
        == 0x9f) || (s[i] == 0xe3 && s[i + 1] == 0x80 && s[i + 2] == 0x80)) {
        3
    } else {
        0
    }
}

/// Byte length of the whitespace character that ends `s[start..j]`, or 0.
fn ws_len_before(s: &[u8], start: usize, j: usize) -> (r: usize)
    requires
        start <= j <= s@.len(),
    ensures
        r == ws_suffix_len(s@.subrange(start as int, j as int)),
{
    let n = j - start;
    if n >= 1 && (s[j - 1] == 0x20 || (0x09 <= s[j - 1] && s[j - 1] <= 0x0d)) {
        1
    } else if n >= 2 && s[j - 2] == 0xc2 && (s[j - 1] == 0x85 || s[j - 1] == 0xa0) {
        2
    } else if n >= 3 && ((s[j - 3] == 0xe1 && s[j - 2] == 0x9a && s[j - 1] == 0x80) || (s[j - 3]
        == 0xe2 && s[j - 2] == 0x80 && ((0x80 <= s[j - 1] && s[j - 1] <= 0x8a) || s[j - 1] == 0xa8
        || s[j - 1] == 0xa9 || s[j - 1] == 0xaf)) || (s[j - 3] == 0xe2 && s[j - 2] == 0x81 && s[j
        - 1] == 0x9f) || (s[j - 3] == 0xe3 && s[j - 2] == 0x80 && s[j - 1] == 0x80)) {
        3
    } else {
        0
    }
}

/// The bounds `[a, b)` of `s[start..end]` with leading and trailing
/// whitespace characters removed.
pub fn trim_bounds(s: &[u8], start: usize, end: usize) -> (r: (usize, usize))
    requires
        start <= end <= s@.len(),
    ensures
        start <= r.0 <= r.1 <= end,
        s@.subrange(r.0 as int, r.1 as int) == trim(s@.subrange(start as int, end as int)),
{
    let mut a = start;
    while a < end
        invariant
            start <= a <= end <= s@.len(),
            trim_start(s@.subrange(start as int, end as int)) == trim_start(
                s@.subrange(a as int, end as int),
            ),
        ensures
            start <= a <= end,
            trim_start(s@.subrange(start as int, end as int)) == trim_start(
                s@.subrange(a as int, end as int),
            ),
            ws_prefix_len(s@.subrange(a as int, end as int)) == 0,
        decreases end - a,
    {
        let k = ws_len_at(s, a, end);
        if k == 0 {
            break;
        }
        assert(s@.subrange(a as int, end as int).skip(k as int) =~= s@.subrange(
            a + k,
            end as int,
        ));
        a = a + k;
    }
    proof {
        assert(trim_start(s@.subrange(start as int, end as int)) == s@.subrange(
            a as int,
            end as int,
        ));
    }
    let mut b = end;
    while b > a
        invariant
            start <= a <= b <= end <= s@.len(),
            trim_end(s@.subrange(a as int, end as int)) == trim_end(
                s@.subrange(a as int, b as int),
            ),
        ensures
            a <= b <= end,
            trim_end(s@.subrange(a as int, end as int)) == trim_end(
                s@.subrange(a as int, b as int),
            ),
            ws_suffix_len(s@.subrange(a as int, b as int)) == 0,
        decreases b - a,
    {
        let k = ws_len_before(s, a, b);
        if k == 0 {
            break;
        }
        assert(s@.subrange(a as int, b as int).take(b - a - k) =~= s@.subrange(
            a as int,
            b - k,
        ));
        b = b - k;
    }
    (a, b)
}

/// The bytes of `s[start..end]`, copied.
pub fn copy_range(s: &[u8], start: usize, end: usize) -> (r: Vec<u8>)
    requires
        start <= end <= s@.len(),
    ensures
        r@ == s@.subrange(start as int, end as int),
{
    let mut out: Vec<u8> = Vec::new();
    let mut i = start;
    while i < end
        invariant
            start <= i <= end <= s@.len(),
            out@ == s@.subrange(start as int, i as int),
        decreases end - i,
    {
        out.push(s[i]);
        assert(s@.subrange(start as int, i + 1) =~= s@.subrange(start as int, i as int).push(
            s[i as int],
        ));
        i = i + 1;
    }
    out
}

/// Whether two byte sequences are equal.
pub fn bytes_eq(a: &[u8], b: &[u8]) -> (r: bool)
    ensures
        r == (a@ == b@),
{
    if a.len() != b.len() {
        return false;
    }
    let mut i: usize = 0;
    while i < a.len()
        invariant
            i <= a@.len(),
            a@.len() == b@.len(),
            forall|k: int| 0 <= k < i ==> a@[k] == b@[k],
        decreases a@.len() - i,
    {
        if a[i] != b[i] {
            return false;
        }
        i = i + 1;
    }
    assert(a@ =~= b@);
    true
}

/// The UTF-8 encoding of a Unicode `White_Space` character: tab, line
/// feed, vertical tab, form feed, carriage return, space, U+0085, U+00A0,
/// U+1680, U+2000 to U+200A, U+2028, U+2029, U+202F, U+205F or U+3000.
pub open spec fn whitespace_encoding(c: Seq<u8>) -> bool {
    ||| c == seq![0x09u8]
    ||| c == seq![0x0au8]
    ||| c == seq![0x0bu8]
    ||| c == seq![0x0cu8]
    ||| c == seq![0x0du8]
    ||| c == seq![0x20u8]
    ||| c == seq![0xc2u8, 0x85u8]
    ||| c == seq![0xc2u8, 0xa0u8]
    ||| c == seq![0xe1u8, 0x9au8, 0x80u8]
    ||| (c.len() == 3 && c[0] == 0xe2 && c[1] == 0x80 && 0x80 <= c[2] <= 0x8a)
    ||| c == seq![0xe2u8, 0x80u8, 0xa8u8]
    ||| c == seq![0xe2u8, 0x80u8, 0xa9u8]
    ||| c == seq![0xe2u8, 0x80u8, 0xafu8]
    ||| c == seq![0xe2u8, 0x81u8, 0x9fu8]
    ||| c == seq![0xe3u8, 0x80u8, 0x80u8]
}

/// Trimming drops whitespace characters: one in front of a text is dropped
/// by `trim_start`, one behind it by `trim_end`.
pub proof fn lemma_trim_drops_whitespace(c: Seq<u8>, s: Seq<u8>)
    requires
        whitespace_encoding(c),
    ensures
        trim_start(c + s) == trim_start(s),
        trim_end(s + c) == trim_end(s),
{
    assert((c + s).skip(c.len() as int) =~= s);
    assert((s + c).take((s + c).len() - c.len()) =~= s);
    assert((c + s)[0] == c[0]);
    assert(c.len() >= 2 ==> (c + s)[1] == c[1]);
    assert(c.len() >= 3 ==> (c + s)[2] == c[2]);
    let n = (s + c).len() as int;
    assert((s + c)[n - 1] == c[c.len() - 1]);
    assert(c.len() >= 2 ==> (s + c)[n - 2] == c[c.len() - 2]);
    assert(c.len() >= 3 ==> (s + c)[n - 3] == c[c.len() - 3]);
    assert(ws_prefix_len(c + s) == c.len());
    assert(ws_suffix_len(s + c) == c.len());
}

} // verus!
