//! Lexical path handling: splitting a path into components, collapsing `.`
//! and `..`, and rendering components back into a path.
//!
//! Paths are handled as their UTF-8 bytes with `/` as the separator, the
//! way `std::path::Path` reads them on Unix. No file system is consulted.
use vstd::prelude::*;
use vstd::slice::slice_subrange;
use vstd::utf8::{encode_utf8, is_char_boundary, valid_utf8};
use vstd::string::StringSliceAdditionalSpecFns;

use crate::text::bytes_eq;

verus! {

broadcast use vstd::utf8::encode_utf8_valid_utf8, vstd::utf8::encode_utf8_decode_utf8;

/// The separator byte `/`.
pub const SLASH: u8 = 0x2f;

/// The byte `.`.
pub const DOT: u8 = 0x2e;

/// One component of a path.
pub enum PathPart {
    /// The leading `/` of an absolute path.
    Root,
    /// A leading `.` of a relative path.
    Current,
    /// A `..` component.
    Parent,
    /// Any other non-empty component, by its bytes.
    Normal(Seq<u8>),
}

/// The components contributed by one `/`-delimited segment. Empty
/// segments contribute nothing; `.` is a component only as the very first
/// segment of a relative path.
pub open spec fn segment_part(seg: Seq<u8>, first: bool) -> Seq<PathPart> {
    if seg.len() == 0 {
        Seq::empty()
    } else if seg == seq![DOT] {
        if first {
            seq![PathPart::Current]
        } else {
            Seq::empty()
        }
    } else if seg == seq![DOT, DOT] {
        seq![PathPart::Parent]
    } else {
        seq![PathPart::Normal(seg)]
    }
}

/// The components of `b` from the segment starting at `start`, scanning
/// from `i`.
pub open spec fn parts_scan(b: Seq<u8>, start: int, i: int, first: bool) -> Seq<PathPart>
    decreases b.len() - i,
{
    if i < 0 || start < 0 || start > i || i > b.len() {
        Seq::empty()
    } else if i == b.len() {
        segment_part(b.subrange(start, i), first)
    } else if b[i] == SLASH {
        segment_part(b.subrange(start, i), first) + parts_scan(b, i + 1, i + 1, false)
    } else {
        parts_scan(b, start, i + 1, first)
    }
}

/// The components of a path, as `Path::components` yields them on Unix.
pub open spec fn path_parts(b: Seq<u8>) -> Seq<PathPart> {
    if b.len() > 0 && b[0] == SLASH {
        seq![PathPart::Root] + parts_scan(b, 1, 1, false)
    } else {
        parts_scan(b, 0, 0, true)
    }
}

/// One step of normalization: drop `.`, let `..` remove a preceding normal
/// component (or stay when there is none), keep everything else.
pub open spec fn normalize_step(acc: Seq<PathPart>, p: PathPart) -> Seq<PathPart> {
    match p {
        PathPart::Current => acc,
        PathPart::Parent => if acc.len() > 0 && acc.last() is Normal {
            acc.drop_last()
        } else {
            acc.push(PathPart::Parent)
        },
        _ => acc.push(p),
    }
}

/// Components with `.` removed and `..` collapsed, left to right.
pub open spec fn normalize_parts(ps: Seq<PathPart>) -> Seq<PathPart>
    decreases ps.len(),
{
    if ps.len() == 0 {
        Seq::empty()
    } else {
        normalize_step(normalize_parts(ps.drop_last()), ps.last())
    }
}

/// Whether a component sequence holds a `.` or `..`.
pub open spec fn needs_normalization(ps: Seq<PathPart>) -> bool {
    exists|i: int| 0 <= i < ps.len() && (#[trigger] ps[i] is Current || ps[i] is Parent)
}

/// The bytes of one component.
pub open spec fn part_bytes(p: PathPart) -> Seq<u8> {
    match p {
        PathPart::Root => seq![SLASH],
        PathPart::Current => seq![DOT],
        PathPart::Parent => seq![DOT, DOT],
        PathPart::Normal(s) => s,
    }
}

/// A path built by pushing components one by one, as `PathBuf::push`
/// does: a separator goes between two components unless the path so far
/// is empty or already ends with one.
pub open spec fn render(ps: Seq<PathPart>) -> Seq<u8>
    decreases ps.len(),
{
    if ps.len() == 0 {
        Seq::empty()
    } else {
        let prev = render(ps.drop_last());
        if prev.len() > 0 && prev.last() != SLASH {
            prev + seq![SLASH] + part_bytes(ps.last())
        } else {
            prev + part_bytes(ps.last())
        }
    }
}

/// The normalized components of a path.
pub open spec fn normalized(b: Seq<u8>) -> Seq<PathPart> {
    normalize_parts(path_parts(b))
}

/// The key under which a path is known: its normalized components,
/// rendered. Two paths are the same file exactly when their keys are equal.
pub open spec fn path_key(b: Seq<u8>) -> Seq<u8> {
    render(normalized(b))
}

/// The form in which a path is kept: unchanged when it has no `.` or `..`
/// component, else its normalized rendering.
pub open spec fn stored_form(b: Seq<u8>) -> Seq<u8> {
    if needs_normalization(path_parts(b)) {
        path_key(b)
    } else {
        b
    }
}

/// Whether normalized components start at the root.
pub open spec fn parts_absolute(ps: Seq<PathPart>) -> bool {
    ps.len() > 0 && ps[0] is Root
}

/// Whether `prefix` is a leading run of `ps`, as `Path::starts_with`.
pub open spec fn parts_start_with(ps: Seq<PathPart>, prefix: Seq<PathPart>) -> bool {
    prefix.len() <= ps.len() && ps.subrange(0, prefix.len() as int) == prefix
}

/// Whether a relative path stays inside `root`: joining the normalized
/// path onto the normalized root and normalizing again keeps the root's
/// components as a prefix.
pub open spec fn stays_within(path: Seq<u8>, root: Seq<u8>) -> bool {
    parts_start_with(normalize_parts(normalized(root) + normalized(path)), normalized(root))
}

// ----------------------------------------------------------------------------
// Executable components
// ----------------------------------------------------------------------------

/// What kind of component a [`Part`] is.
#[derive(Clone, Copy, PartialEq, Eq, Structural)]
pub enum PartKind {
    Root,
    Current,
    Parent,
    Normal,
}

/// A component located in one of two byte strings: `start..end` of the
/// path (or of the root, when `in_root`) holds a normal component's bytes.
#[derive(Clone, Copy)]
pub struct Part {
    pub kind: PartKind,
    pub in_root: bool,
    pub start: usize,
    pub end: usize,
}

/// The component a [`Part`] stands for when its range is read in `src`.
pub open spec fn part_view_in(p: Part, src: Seq<u8>) -> PathPart {
    match p.kind {
        PartKind::Root => PathPart::Root,
        PartKind::Current => PathPart::Current,
        PartKind::Parent => PathPart::Parent,
        PartKind::Normal => PathPart::Normal(src.subrange(p.start as int, p.end as int)),
    }
}

/// The source a part's range is read in: the root or the path.
pub open spec fn part_source(p: Part, path: Seq<u8>, root: Seq<u8>) -> Seq<u8> {
    if p.in_root {
        root
    } else {
        path
    }
}

/// The component a [`Part`] stands for, given the path and root bytes.
pub open spec fn part_view(p: Part, path: Seq<u8>, root: Seq<u8>) -> PathPart {
    part_view_in(p, part_source(p, path, root))
}

/// The components a sequence of [`Part`]s stands for.
pub open spec fn parts_view(ps: Seq<Part>, path: Seq<u8>, root: Seq<u8>) -> Seq<PathPart> {
    ps.map_values(|p: Part| part_view(p, path, root))
}

/// The components of parts that all read in `src`.
pub open spec fn parts_view_in(ps: Seq<Part>, src: Seq<u8>) -> Seq<PathPart> {
    ps.map_values(|p: Part| part_view_in(p, src))
}

/// A part's range lies in `src` and is delimited by separators or the
/// ends of `src`.
pub open spec fn part_in_bounds(p: Part, src: Seq<u8>) -> bool {
    &&& p.start <= p.end <= src.len()
    &&& (p.start == 0 || src[p.start - 1] == SLASH)
    &&& (p.end == src.len() || src[p.end as int] == SLASH)
}

/// Every part of `ps` is in bounds in its own source.
pub open spec fn parts_in_bounds(ps: Seq<Part>, path: Seq<u8>, root: Seq<u8>) -> bool {
    forall|k: int|
        0 <= k < ps.len() ==> part_in_bounds(#[trigger] ps[k], part_source(ps[k], path, root))
}

/// Parts that all come from the same source read the same in it.
pub open spec fn parts_from_source(ps: Seq<Part>, in_root: bool) -> bool {
    forall|k: int| 0 <= k < ps.len() ==> (#[trigger] ps[k]).in_root == in_root
}

/// Parts from one source view as they do in that source.
pub proof fn lemma_parts_single_source(ps: Seq<Part>, path: Seq<u8>, root: Seq<u8>, in_root: bool)
    requires
        parts_from_source(ps, in_root),
    ensures
        parts_view(ps, path, root) == parts_view_in(
            ps,
            if in_root {
                root
            } else {
                path
            },
        ),
        (forall|k: int|
            0 <= k < ps.len() ==> part_in_bounds(
                #[trigger] ps[k],
                if in_root {
                    root
                } else {
                    path
                },
            )) ==> parts_in_bounds(ps, path, root),
{
    let src = if in_root {
        root
    } else {
        path
    };
    assert forall|k: int| 0 <= k < ps.len() implies #[trigger] parts_view(ps, path, root)[k]
        == parts_view_in(ps, src)[k] by {
        assert(part_source(ps[k], path, root) == src);
    }
    assert(parts_view(ps, path, root) =~= parts_view_in(ps, src));
    if forall|k: int| 0 <= k < ps.len() ==> part_in_bounds(#[trigger] ps[k], src) {
        assert forall|k: int| 0 <= k < ps.len() implies part_in_bounds(
            #[trigger] ps[k],
            part_source(ps[k], path, root),
        ) by {
            assert(part_source(ps[k], path, root) == src);
        }
    }
}

/// Append the components of the segment `b[start..end]` to `out`.
fn push_segment(out: &mut Vec<Part>, b: &[u8], start: usize, end: usize, first: bool, in_root: bool)
    requires
        start <= end <= b@.len(),
        start == 0 || b@[start - 1] == SLASH,
        end == b@.len() || b@[end as int] == SLASH,
    ensures
        parts_view_in(final(out)@, b@) == parts_view_in(old(out)@, b@) + segment_part(
            b@.subrange(start as int, end as int),
            first,
        ),
        forall|k: int| 0 <= k < old(out)@.len() ==> #[trigger] final(out)@[k] == old(out)@[k],
        forall|k: int|
            old(out)@.len() <= k < final(out)@.len() ==> (#[trigger] final(out)@[k]).in_root
                == in_root && part_in_bounds(final(out)@[k], b@),
{
    let ghost seg = b@.subrange(start as int, end as int);
    let len = end - start;
    assert(seg.len() == len);
    let kind = if len == 0 {
        None
    } else if len == 1 && b[start] == DOT {
        assert(seg =~= seq![DOT]);
        if first {
            Some(PartKind::Current)
        } else {
            None
        }
    } else if len == 2 && b[start] == DOT && b[start + 1] == DOT {
        assert(seg =~= seq![DOT, DOT]);
        Some(PartKind::Parent)
    } else {
        proof {
            if seg == seq![DOT] {
                assert(seg[0] == DOT);
                assert(seg[0] == b@[start as int]);
                assert(false);
            }
            if seg == seq![DOT, DOT] {
                assert(seg[0] == DOT && seg[1] == DOT);
                assert(seg[0] == b@[start as int] && seg[1] == b@[start + 1]);
                assert(false);
            }
        }
        Some(PartKind::Normal)
    };
    let ghost before = out@;
    match kind {
        None => {
            assert(segment_part(seg, first) =~= Seq::<PathPart>::empty());
            assert(parts_view_in(out@, b@) + Seq::<PathPart>::empty() =~= parts_view_in(out@, b@));
        },
        Some(k) => {
            let p = Part { kind: k, in_root, start, end };
            out.push(p);
            assert(segment_part(seg, first) =~= seq![part_view_in(p, b@)]);
            assert(parts_view_in(out@, b@) =~= parts_view_in(before, b@) + seq![part_view_in(p, b@)]);
        },
    }
}

/// Split a path's bytes into components; `in_root` tags the parts' source.
pub fn split_parts(b: &[u8], in_root: bool) -> (r: Vec<Part>)
    ensures
        parts_view_in(r@, b@) == path_parts(b@),
        parts_from_source(r@, in_root),
        forall|k: int| 0 <= k < r@.len() ==> part_in_bounds(#[trigger] r@[k], b@),
{
    let mut out: Vec<Part> = Vec::new();
    let len = b.len();
    let mut start: usize;
    let mut first: bool;
    if len > 0 && b[0] == SLASH {
        out.push(Part { kind: PartKind::Root, in_root, start: 0, end: 0 });
        start = 1;
        first = false;
        assert(parts_view_in(out@, b@) =~= seq![PathPart::Root]);
    } else {
        start = 0;
        first = true;
        assert(parts_view_in(out@, b@) + parts_scan(b@, 0, 0, true) =~= parts_scan(b@, 0, 0, true));
    }
    let mut i: usize = start;
    while i < len
        invariant
            len == b@.len(),
            start <= i <= len,
            start == 0 || b@[start - 1] == SLASH,
            parts_view_in(out@, b@) + parts_scan(b@, start as int, i as int, first) == path_parts(
                b@,
            ),
            parts_from_source(out@, in_root),
            forall|k: int| 0 <= k < out@.len() ==> part_in_bounds(#[trigger] out@[k], b@),
        decreases len - i,
    {
        if b[i] == SLASH {
            let ghost before = out@;
            let ghost seg = segment_part(b@.subrange(start as int, i as int), first);
            assert(parts_scan(b@, start as int, i as int, first) == seg + parts_scan(
                b@,
                i + 1,
                i + 1,
                false,
            ));
            push_segment(&mut out, b, start, i, first, in_root);
            assert(parts_view_in(before, b@) + (seg + parts_scan(b@, i + 1, i + 1, false))
                =~= (parts_view_in(before, b@) + seg) + parts_scan(b@, i + 1, i + 1, false));
            start = i + 1;
            first = false;
        } else {
            assert(parts_scan(b@, start as int, i as int, first) == parts_scan(
                b@,
                start as int,
                i + 1,
                first,
            ));
        }
        i = i + 1;
    }
    assert(parts_scan(b@, start as int, len as int, first) == segment_part(
        b@.subrange(start as int, len as int),
        first,
    ));
    push_segment(&mut out, b, start, len, first, in_root);
    out
}

/// Normalize located parts: drop `.`, let `..` remove a preceding normal
/// part, keep the rest, in order.
pub fn normalize_located(ps: &Vec<Part>, Ghost(path): Ghost<Seq<u8>>, Ghost(root): Ghost<Seq<u8>>) -> (r: Vec<Part>)
    ensures
        parts_view(r@, path, root) == normalize_parts(parts_view(ps@, path, root)),
        forall|k: int| 0 <= k < r@.len() ==> exists|j: int| 0 <= j < ps@.len() && #[trigger] r@[k] == ps@[j],
{
    let mut out: Vec<Part> = Vec::new();
    let mut i: usize = 0;
    while i < ps.len()
        invariant
            i <= ps@.len(),
            parts_view(out@, path, root) == normalize_parts(parts_view(ps@, path, root).take(i as int)),
            forall|k: int| 0 <= k < out@.len() ==> exists|j: int| 0 <= j < ps@.len() && #[trigger] out@[k] == ps@[j],
        decreases ps@.len() - i,
    {
        let p = ps[i];
        let ghost view = parts_view(ps@, path, root);
        let ghost before = out@;
        assert(view.take(i + 1).drop_last() =~= view.take(i as int));
        assert(view.take(i + 1).last() == part_view(p, path, root));
        match p.kind {
            PartKind::Current => {},
            PartKind::Parent => {
                let n = out.len();
                if n > 0 && out[n - 1].kind == PartKind::Normal {
                    out.pop();
                    assert(parts_view(out@, path, root) =~= parts_view(before, path, root).drop_last());
                } else {
                    out.push(p);
                    proof { lemma_parts_view_push(before, p, path, root); }
                }
            },
            _ => {
                out.push(p);
                proof { lemma_parts_view_push(before, p, path, root); }
            },
        }
        proof {
            assert forall|k: int| 0 <= k < out@.len() implies exists|j: int|
                0 <= j < ps@.len() && #[trigger] out@[k] == ps@[j] by {
                if k < before.len() {
                    assert(out@[k] == before[k]);
                } else {
                    assert(out@[k] == ps@[i as int]);
                }
            }
        }
        i = i + 1;
    }
    assert(parts_view(ps@, path, root).take(ps@.len() as int) =~= parts_view(ps@, path, root));
    out
}

proof fn lemma_parts_view_push(ps: Seq<Part>, p: Part, path: Seq<u8>, root: Seq<u8>)
    ensures
        parts_view(ps.push(p), path, root) == parts_view(ps, path, root).push(
            part_view(p, path, root),
        ),
{
    assert(parts_view(ps.push(p), path, root) =~= parts_view(ps, path, root).push(
        part_view(p, path, root),
    ));
}

/// Whether two located parts stand for the same component.
fn part_eq(a: Part, b: Part, path: &[u8], root: &[u8]) -> (r: bool)
    requires
        part_in_bounds(a, part_source(a, path@, root@)),
        part_in_bounds(b, part_source(b, path@, root@)),
    ensures
        r == (part_view(a, path@, root@) == part_view(b, path@, root@)),
{
    if a.kind != b.kind {
        return false;
    }
    match a.kind {
        PartKind::Normal => {
            let sa = if a.in_root {
                root
            } else {
                path
            };
            let sb = if b.in_root {
                root
            } else {
                path
            };
            let xa = slice_subrange(sa, a.start, a.end);
            let xb = slice_subrange(sb, b.start, b.end);
            bytes_eq(xa, xb)
        },
        _ => true,
    }
}

/// Whether `prefix` is a leading run of `ps`, component by component.
pub fn located_start_with(ps: &Vec<Part>, prefix: &Vec<Part>, path: &[u8], root: &[u8]) -> (r: bool)
    requires
        parts_in_bounds(ps@, path@, root@),
        parts_in_bounds(prefix@, path@, root@),
    ensures
        r == parts_start_with(parts_view(ps@, path@, root@), parts_view(prefix@, path@, root@)),
{
    let ghost a = parts_view(ps@, path@, root@);
    let ghost b = parts_view(prefix@, path@, root@);
    if prefix.len() > ps.len() {
        return false;
    }
    let mut i: usize = 0;
    while i < prefix.len()
        invariant
            prefix@.len() <= ps@.len(),
            i <= prefix@.len(),
            a == parts_view(ps@, path@, root@),
            b == parts_view(prefix@, path@, root@),
            parts_in_bounds(ps@, path@, root@),
            parts_in_bounds(prefix@, path@, root@),
            forall|k: int| 0 <= k < i ==> a[k] == b[k],
        decreases prefix@.len() - i,
    {
        if !part_eq(ps[i], prefix[i], path, root) {
            assert(a.subrange(0, b.len() as int)[i as int] != b[i as int]);
            return false;
        }
        i = i + 1;
    }
    assert(a.subrange(0, b.len() as int) =~= b);
    true
}

/// The UTF-8 encoding of a concatenation is the concatenation of the encodings.
pub proof fn lemma_encode_utf8_concat(a: Seq<char>, b: Seq<char>)
    ensures
        encode_utf8(a + b) == encode_utf8(a) + encode_utf8(b),
    decreases a.len(),
{
    if a.len() == 0 {
        assert(a + b =~= b);
        assert(encode_utf8(a) + encode_utf8(b) =~= encode_utf8(b));
    } else {
        lemma_encode_utf8_concat(a.drop_first(), b);
        assert((a + b).drop_first() =~= a.drop_first() + b);
        assert((a + b)[0] == a[0]);
        assert(encode_utf8(a + b) =~= encode_scalar_of(a[0]) + (encode_utf8(a.drop_first())
            + encode_utf8(b)));
    }
}

spec fn encode_scalar_of(c: char) -> Seq<u8> {
    vstd::utf8::encode_scalar(c as u32)
}

/// The segment `s[a..e]` of a string, where `a` follows a separator (or is
/// the start) and `e` is at a separator (or the end).
pub fn str_segment(s: &str, a: usize, e: usize) -> (r: &str)
    requires
        a <= e <= s.spec_bytes().len(),
        a == 0 || s.spec_bytes()[a - 1] == SLASH,
        e == s.spec_bytes().len() || s.spec_bytes()[e as int] == SLASH,
    ensures
        r.spec_bytes() == s.spec_bytes().subrange(a as int, e as int),
{
    let ghost bytes = s.spec_bytes();
    let tail: &str = if a == 0 {
        assert(bytes.subrange(0, bytes.len() as int) =~= bytes);
        s
    } else {
        proof {
            vstd::utf8::is_char_boundary_iff_not_is_continuation_byte(bytes, a - 1);
        }
        let (_, t1) = s.split_at(a - 1);
        let ghost b1 = t1.spec_bytes();
        assert(b1[0] == SLASH);
        proof {
            reveal_with_fuel(is_char_boundary, 2);
            reveal_with_fuel(valid_utf8, 2);
            assert(valid_utf8(b1));
            if b1.len() == 1 {
                vstd::utf8::is_char_boundary_start_end_of_seq(b1);
            } else {
                assert(vstd::utf8::length_of_first_scalar(b1) == 1);
                assert(is_char_boundary(b1, 1));
            }
        }
        let (_, t2) = t1.split_at(1);
        assert(t2.spec_bytes() =~= bytes.subrange(a as int, bytes.len() as int));
        t2
    };
    let ghost tb = tail.spec_bytes();
    proof {
        if e == bytes.len() {
            vstd::utf8::is_char_boundary_start_end_of_seq(tb);
            assert(tb.len() == e - a);
        } else {
            assert(tb[e - a] == SLASH);
            vstd::utf8::is_char_boundary_iff_not_is_continuation_byte(tb, e - a);
        }
    }
    let (r, _) = tail.split_at(e - a);
    assert(r.spec_bytes() =~= bytes.subrange(a as int, e as int));
    r
}

/// Append an ASCII literal to a string.
fn append_ascii(out: &mut String, lit: &str)
    requires
        vstd::utf8::is_ascii_chars(lit@),
    ensures
        encode_utf8(final(out)@) == encode_utf8(old(out)@) + Seq::new(
            lit@.len(),
            |i: int| lit@[i] as u8,
        ),
{
    proof {
        lemma_encode_utf8_concat(out@, lit@);
        vstd::utf8::is_ascii_chars_encode_utf8(lit@);
        assert(encode_utf8(lit@) =~= Seq::new(lit@.len(), |i: int| lit@[i] as u8));
    }
    out.append(lit);
}

/// Render parts read in the path `s` the way `PathBuf::push` joins them.
pub fn render_display(ps: &Vec<Part>, s: &str) -> (r: String)
    requires
        forall|k: int| 0 <= k < ps@.len() ==> part_in_bounds(#[trigger] ps@[k], s.spec_bytes()),
    ensures
        encode_utf8(r@) == render(parts_view_in(ps@, s.spec_bytes())),
{
    let ghost b = s.spec_bytes();
    let ghost view = parts_view_in(ps@, b);
    let mut out = String::new();
    let mut nonempty = false;
    let mut last: u8 = 0;
    let mut i: usize = 0;
    proof {
        reveal_strlit("/");
        reveal_strlit(".");
        reveal_strlit("..");
        assert(encode_utf8(out@) =~= render(view.take(0)));
    }
    while i < ps.len()
        invariant
            i <= ps@.len(),
            b == s.spec_bytes(),
            view == parts_view_in(ps@, b),
            forall|k: int| 0 <= k < ps@.len() ==> part_in_bounds(#[trigger] ps@[k], b),
            encode_utf8(out@) == render(view.take(i as int)),
            nonempty == (render(view.take(i as int)).len() > 0),
            nonempty ==> last == render(view.take(i as int)).last(),
            "/"@ == seq!['/'],
            "."@ == seq!['.'],
            ".."@ == seq!['.', '.'],
        decreases ps@.len() - i,
    {
        let p = ps[i];
        let ghost prev = render(view.take(i as int));
        assert(view.take(i + 1).drop_last() =~= view.take(i as int));
        assert(view.take(i + 1).last() == part_view_in(p, b));
        let ghost pb = part_bytes(part_view_in(p, b));
        let sep = nonempty && last != SLASH;
        if sep {
            append_ascii(&mut out, "/");
                assert(Seq::new(1, |i: int| "/"@[i] as u8) =~= seq![SLASH]);
        }
        let ghost mid = encode_utf8(out@);
        assert(mid == if sep { prev + seq![SLASH] } else { prev });
        match p.kind {
            PartKind::Root => {
                append_ascii(&mut out, "/");
                assert(Seq::new(1, |i: int| "/"@[i] as u8) =~= seq![SLASH]);
                last = SLASH;
                nonempty = true;
            },
            PartKind::Current => {
                append_ascii(&mut out, ".");
                assert(Seq::new(1, |i: int| "."@[i] as u8) =~= seq![DOT]);
                last = DOT;
                nonempty = true;
            },
            PartKind::Parent => {
                append_ascii(&mut out, "..");
                assert(Seq::new(2, |i: int| ".."@[i] as u8) =~= seq![DOT, DOT]);
                last = DOT;
                nonempty = true;
            },
            PartKind::Normal => {
                let seg = str_segment(s, p.start, p.end);
                let ghost before = out@;
                out.append(seg);
                proof {
                    lemma_encode_utf8_concat(before, seg@);
                }
                if p.start < p.end {
                    last = s.as_bytes()[p.end - 1];
                    nonempty = true;
                } else if sep {
                    last = SLASH;
                }
            },
        }
        assert(encode_utf8(out@) == mid + pb);
        assert(render(view.take(i + 1)) == mid + pb);
        i = i + 1;
    }
    assert(view.take(ps@.len() as int) =~= view);
    out
}

/// Components in normal form: no `.`, the root only first, and no `..`
/// right after a normal component.
pub open spec fn normal_form(ps: Seq<PathPart>) -> bool {
    &&& forall|i: int| 0 <= i < ps.len() ==> !(#[trigger] ps[i] is Current)
    &&& forall|i: int| 0 < i < ps.len() ==> !(#[trigger] ps[i] is Root)
    &&& forall|i: int| 0 < i < ps.len() && (#[trigger] ps[i] is Parent) ==> !(ps[i - 1] is Normal)
}

/// The root appears at most as the first component.
pub open spec fn root_only_first(ps: Seq<PathPart>) -> bool {
    forall|i: int| 0 < i < ps.len() ==> !(#[trigger] ps[i] is Root)
}

proof fn lemma_parts_scan_no_root(b: Seq<u8>, start: int, i: int, first: bool)
    ensures
        forall|k: int|
            0 <= k < parts_scan(b, start, i, first).len() ==> !(#[trigger] parts_scan(
                b,
                start,
                i,
                first,
            )[k] is Root),
    decreases b.len() - i,
{
    if i < 0 || start < 0 || start > i || i > b.len() {
    } else if i == b.len() {
    } else if b[i] == SLASH {
        lemma_parts_scan_no_root(b, i + 1, i + 1, false);
        let seg = segment_part(b.subrange(start, i), first);
        let rest = parts_scan(b, i + 1, i + 1, false);
        assert forall|k: int| 0 <= k < (seg + rest).len() implies !(#[trigger] (seg + rest)[k] is Root) by {
            if k >= seg.len() {
                assert((seg + rest)[k] == rest[k - seg.len()]);
            }
        }
    } else {
        lemma_parts_scan_no_root(b, start, i + 1, first);
    }
}

/// A path's components hold the root only as the first one.
pub proof fn lemma_path_parts_root_only_first(b: Seq<u8>)
    ensures
        root_only_first(path_parts(b)),
{
    if b.len() > 0 && b[0] == SLASH {
        lemma_parts_scan_no_root(b, 1, 1, false);
        let rest = parts_scan(b, 1, 1, false);
        assert forall|i: int| 0 < i < path_parts(b).len() implies !(#[trigger] path_parts(b)[i] is Root) by {
            assert(path_parts(b)[i] == rest[i - 1]);
        }
    } else {
        lemma_parts_scan_no_root(b, 0, 0, true);
    }
}

/// Normalizing components whose root is only first gives normal form.
pub proof fn lemma_normalize_normal_form(ps: Seq<PathPart>)
    requires
        root_only_first(ps),
    ensures
        normal_form(normalize_parts(ps)),
        ps.len() > 0 && ps[0] is Root ==> normalize_parts(ps).len() > 0 && normalize_parts(ps)[0] is Root,
        normalize_parts(ps).len() > 0 && normalize_parts(ps)[0] is Root ==> ps.len() > 0 && ps[0] is Root,
    decreases ps.len(),
{
    if ps.len() > 0 {
        let init = ps.drop_last();
        assert(root_only_first(init)) by {
            assert forall|i: int| 0 < i < init.len() implies !(#[trigger] init[i] is Root) by {
                assert(init[i] == ps[i]);
            }
        }
        lemma_normalize_normal_form(init);
        let acc = normalize_parts(init);
        let p = ps.last();
        if ps.len() > 1 {
            assert(!(p is Root)) by {
                assert(ps[ps.len() - 1] == p);
            }
            assert(init[0] == ps[0]);
        }
        let out = normalize_parts(ps);
        assert(out == normalize_step(acc, p));
        match p {
            PathPart::Current => {},
            PathPart::Parent => {
                if acc.len() > 0 && acc.last() is Normal {
                    assert(out =~= acc.drop_last());
                    assert forall|i: int| 0 < i < out.len() && (#[trigger] out[i] is Parent) implies !(out[i - 1] is Normal) by {
                        assert(out[i] == acc[i] && out[i - 1] == acc[i - 1]);
                    }
                    assert forall|i: int| 0 < i < out.len() implies !(#[trigger] out[i] is Root) by {
                        assert(out[i] == acc[i]);
                    }
                    assert forall|i: int| 0 <= i < out.len() implies !(#[trigger] out[i] is Current) by {
                        assert(out[i] == acc[i]);
                    }
                    if out.len() > 0 {
                        assert(out[0] == acc[0]);
                    }
                } else {
                    assert(out =~= acc.push(PathPart::Parent));
                    assert forall|i: int| 0 < i < out.len() && (#[trigger] out[i] is Parent) implies !(out[i - 1] is Normal) by {
                        if i < acc.len() {
                            assert(out[i] == acc[i] && out[i - 1] == acc[i - 1]);
                        } else {
                            assert(out[i - 1] == acc.last());
                        }
                    }
                    assert forall|i: int| 0 < i < out.len() implies !(#[trigger] out[i] is Root) by {
                        if i < acc.len() {
                            assert(out[i] == acc[i]);
                        }
                    }
                    assert forall|i: int| 0 <= i < out.len() implies !(#[trigger] out[i] is Current) by {
                        if i < acc.len() {
                            assert(out[i] == acc[i]);
                        }
                    }
                    if acc.len() > 0 {
                        assert(out[0] == acc[0]);
                    }
                }
            },
            _ => {
                assert(out =~= acc.push(p));
                assert forall|i: int| 0 < i < out.len() && (#[trigger] out[i] is Parent) implies !(out[i - 1] is Normal) by {
                    if i < acc.len() {
                        assert(out[i] == acc[i] && out[i - 1] == acc[i - 1]);
                    }
                }
                assert forall|i: int| 0 < i < out.len() implies !(#[trigger] out[i] is Root) by {
                    if i < acc.len() {
                        assert(out[i] == acc[i]);
                    } else {
                        assert(out[i] == p);
                        assert(ps.len() > 1 || acc.len() == 0);
                    }
                }
                assert forall|i: int| 0 <= i < out.len() implies !(#[trigger] out[i] is Current) by {
                    if i < acc.len() {
                        assert(out[i] == acc[i]);
                    }
                }
                if acc.len() > 0 {
                    assert(out[0] == acc[0]);
                }
            },
        }
    }
}

/// Components in normal form are left as they are by normalization.
pub proof fn lemma_normalize_idempotent(ps: Seq<PathPart>)
    requires
        normal_form(ps),
    ensures
        normalize_parts(ps) == ps,
    decreases ps.len(),
{
    if ps.len() > 0 {
        let init = ps.drop_last();
        assert(normal_form(init)) by {
            assert forall|i: int| 0 < i < init.len() && (#[trigger] init[i] is Parent) implies !(init[i - 1] is Normal) by {
                assert(init[i] == ps[i] && init[i - 1] == ps[i - 1]);
            }
            assert forall|i: int| 0 < i < init.len() implies !(#[trigger] init[i] is Root) by {
                assert(init[i] == ps[i]);
            }
            assert forall|i: int| 0 <= i < init.len() implies !(#[trigger] init[i] is Current) by {
                assert(init[i] == ps[i]);
            }
        }
        lemma_normalize_idempotent(init);
        let p = ps.last();
        assert(!(p is Current)) by {
            assert(ps[ps.len() - 1] == p);
        }
        if p is Parent && init.len() > 0 {
            assert(ps[ps.len() - 1] is Parent);
            assert(init.last() == ps[ps.len() - 2]);
        }
        assert(init.push(p) =~= ps);
    }
}

/// Normalizing after appending normal components appends them.
pub proof fn lemma_normalize_append_normals(a: Seq<PathPart>, b: Seq<PathPart>)
    requires
        forall|i: int| 0 <= i < b.len() ==> #[trigger] b[i] is Normal,
    ensures
        normalize_parts(a + b) == normalize_parts(a) + b,
    decreases b.len(),
{
    if b.len() == 0 {
        assert(a + b =~= a);
        assert(normalize_parts(a) + b =~= normalize_parts(a));
    } else {
        let init = b.drop_last();
        assert forall|i: int| 0 <= i < init.len() implies #[trigger] init[i] is Normal by {
            assert(init[i] == b[i]);
        }
        lemma_normalize_append_normals(a, init);
        assert((a + b).drop_last() =~= a + init);
        assert((a + b).last() == b.last());
        assert(b.last() is Normal) by {
            assert(b[b.len() - 1] == b.last());
        }
        assert((normalize_parts(a) + init).push(b.last()) =~= normalize_parts(a) + b);
    }
}

/// A relative path without `..` components stays within any root.
pub proof fn lemma_plain_relative_path_stays_within(path: Seq<u8>, root: Seq<u8>)
    requires
        !parts_absolute(normalized(path)),
        forall|i: int| 0 <= i < path_parts(path).len() ==> !(#[trigger] path_parts(path)[i] is Parent),
    ensures
        stays_within(path, root),
{
    let pp = path_parts(path);
    let rp = path_parts(root);
    lemma_path_parts_root_only_first(path);
    lemma_path_parts_root_only_first(root);
    lemma_normalize_normal_form(pp);
    lemma_normalize_normal_form(rp);
    let np = normalized(path);
    let nr = normalized(root);
    lemma_normal_components_only(pp);
    assert forall|i: int| 0 <= i < np.len() implies #[trigger] np[i] is Normal by {
        if i == 0 {
            assert(!(np[0] is Root));
        }
    }
    lemma_normalize_append_normals(nr, np);
    lemma_normalize_idempotent(nr);
    assert((nr + np).subrange(0, nr.len() as int) =~= nr);
}

/// Normalizing components without `..` keeps only normal components and
/// the root.
proof fn lemma_normal_components_only(ps: Seq<PathPart>)
    requires
        forall|i: int| 0 <= i < ps.len() ==> !(#[trigger] ps[i] is Parent),
    ensures
        forall|i: int|
            0 <= i < normalize_parts(ps).len() ==> (#[trigger] normalize_parts(ps)[i] is Normal
                || normalize_parts(ps)[i] is Root),
    decreases ps.len(),
{
    if ps.len() > 0 {
        let init = ps.drop_last();
        assert forall|i: int| 0 <= i < init.len() implies !(#[trigger] init[i] is Parent) by {
            assert(init[i] == ps[i]);
        }
        lemma_normal_components_only(init);
        assert(!(ps.last() is Parent)) by {
            assert(ps[ps.len() - 1] == ps.last());
        }
        let acc = normalize_parts(init);
        let out = normalize_parts(ps);
        assert forall|i: int| 0 <= i < out.len() implies (#[trigger] out[i] is Normal || out[i] is Root) by {
            if i < acc.len() {
                assert(out[i] == acc[i]);
            }
        }
    }
}

/// A component as a scan of a path yields it: a normal component is a
/// non-empty run without separator other than `.` and `..`.
pub open spec fn part_wf(p: PathPart) -> bool {
    match p {
        PathPart::Normal(seg) => {
            &&& seg.len() > 0
            &&& forall|k: int| 0 <= k < seg.len() ==> #[trigger] seg[k] != SLASH
            &&& seg != seq![DOT]
            &&& seg != seq![DOT, DOT]
        },
        _ => true,
    }
}

/// Every component is well formed.
pub open spec fn parts_wf(ps: Seq<PathPart>) -> bool {
    forall|i: int| 0 <= i < ps.len() ==> part_wf(#[trigger] ps[i])
}

proof fn lemma_segment_part_wf(seg: Seq<u8>, first: bool)
    requires
        forall|k: int| 0 <= k < seg.len() ==> #[trigger] seg[k] != SLASH,
    ensures
        parts_wf(segment_part(seg, first)),
{
}

proof fn lemma_parts_scan_wf(b: Seq<u8>, start: int, i: int, first: bool)
    requires
        0 <= start <= i,
        forall|k: int| start <= k < i ==> #[trigger] b[k] != SLASH,
    ensures
        parts_wf(parts_scan(b, start, i, first)),
    decreases b.len() - i,
{
    if i > b.len() {
    } else if i == b.len() {
        let seg = b.subrange(start, i);
        assert forall|k: int| 0 <= k < seg.len() implies #[trigger] seg[k] != SLASH by {
            assert(seg[k] == b[start + k]);
        }
        lemma_segment_part_wf(seg, first);
    } else if b[i] == SLASH {
        let seg = b.subrange(start, i);
        assert forall|k: int| 0 <= k < seg.len() implies #[trigger] seg[k] != SLASH by {
            assert(seg[k] == b[start + k]);
        }
        lemma_segment_part_wf(seg, first);
        lemma_parts_scan_wf(b, i + 1, i + 1, false);
        let sp = segment_part(seg, first);
        let rest = parts_scan(b, i + 1, i + 1, false);
        assert forall|k: int| 0 <= k < (sp + rest).len() implies part_wf(#[trigger] (sp + rest)[k]) by {
            if k < sp.len() {
                assert((sp + rest)[k] == sp[k]);
            } else {
                assert((sp + rest)[k] == rest[k - sp.len()]);
            }
        }
    } else {
        lemma_parts_scan_wf(b, start, i + 1, first);
    }
}

/// The components of a path are well formed.
pub proof fn lemma_path_parts_wf(b: Seq<u8>)
    ensures
        parts_wf(path_parts(b)),
{
    if b.len() > 0 && b[0] == SLASH {
        lemma_parts_scan_wf(b, 1, 1, false);
        let rest = parts_scan(b, 1, 1, false);
        assert forall|i: int| 0 <= i < path_parts(b).len() implies part_wf(#[trigger] path_parts(b)[i]) by {
            if i > 0 {
                assert(path_parts(b)[i] == rest[i - 1]);
            }
        }
    } else {
        lemma_parts_scan_wf(b, 0, 0, true);
    }
}

/// Normalization keeps well-formed components well formed.
pub proof fn lemma_normalize_wf(ps: Seq<PathPart>)
    requires
        parts_wf(ps),
    ensures
        parts_wf(normalize_parts(ps)),
    decreases ps.len(),
{
    if ps.len() > 0 {
        let init = ps.drop_last();
        assert forall|i: int| 0 <= i < init.len() implies part_wf(#[trigger] init[i]) by {
            assert(init[i] == ps[i]);
        }
        lemma_normalize_wf(init);
        assert(part_wf(ps.last())) by {
            assert(ps[ps.len() - 1] == ps.last());
        }
        let acc = normalize_parts(init);
        let out = normalize_parts(ps);
        assert forall|i: int| 0 <= i < out.len() implies part_wf(#[trigger] out[i]) by {
            if i < acc.len() {
                assert(out[i] == acc[i]);
            }
        }
    }
}

/// Scanning a run without separators to the end gives one segment.
proof fn lemma_parts_scan_tail(b: Seq<u8>, start: int, i: int, first: bool)
    requires
        0 <= start <= i <= b.len(),
        forall|k: int| i <= k < b.len() ==> #[trigger] b[k] != SLASH,
    ensures
        parts_scan(b, start, i, first) == segment_part(b.subrange(start, b.len() as int), first),
    decreases b.len() - i,
{
    if i < b.len() {
        lemma_parts_scan_tail(b, start, i + 1, first);
    }
}

/// Scanning `x / y`, with `y` free of separators, scans `x` and then the
/// segment `y`.
proof fn lemma_parts_scan_append(x: Seq<u8>, y: Seq<u8>, start: int, i: int, first: bool)
    requires
        0 <= start <= i <= x.len(),
        forall|k: int| 0 <= k < y.len() ==> #[trigger] y[k] != SLASH,
    ensures
        parts_scan(x + seq![SLASH] + y, start, i, first) == parts_scan(x, start, i, first)
            + segment_part(y, false),
    decreases x.len() - i,
{
    let b = x + seq![SLASH] + y;
    assert(b.subrange(start, i) =~= x.subrange(start, i));
    if i == x.len() {
        assert(b[i] == SLASH);
        assert forall|k: int| i + 1 <= k < b.len() implies #[trigger] b[k] != SLASH by {
            assert(b[k] == y[k - i - 1]);
        }
        lemma_parts_scan_tail(b, i + 1, i + 1, false);
        assert(b.subrange(i + 1, b.len() as int) =~= y);
    } else {
        assert(b[i] == x[i]);
        if x[i] == SLASH {
            lemma_parts_scan_append(x, y, i + 1, i + 1, false);
            let sp = segment_part(x.subrange(start, i), first);
            assert(sp + (parts_scan(x, i + 1, i + 1, false) + segment_part(y, false)) =~= (sp
                + parts_scan(x, i + 1, i + 1, false)) + segment_part(y, false));
        } else {
            lemma_parts_scan_append(x, y, start, i + 1, first);
        }
    }
}

/// The rendered form of components is empty exactly when there are none,
/// and ends with a separator exactly when the last one is the root.
proof fn lemma_render_shape(ps: Seq<PathPart>)
    requires
        parts_wf(ps),
    ensures
        (render(ps).len() == 0) == (ps.len() == 0),
        render(ps).len() > 0 ==> ((render(ps).last() == SLASH) == (ps.last() is Root)),
    decreases ps.len(),
{
    if ps.len() > 0 {
        let init = ps.drop_last();
        assert forall|i: int| 0 <= i < init.len() implies part_wf(#[trigger] init[i]) by {
            assert(init[i] == ps[i]);
        }
        lemma_render_shape(init);
        let p = ps.last();
        assert(part_wf(p)) by {
            assert(ps[ps.len() - 1] == p);
        }
        match p {
            PathPart::Normal(seg) => {
                assert(seg[seg.len() - 1] != SLASH);
            },
            _ => {},
        }
    }
}

/// Rendering normal-form, well-formed components and splitting the result
/// again gives the components back.
pub proof fn lemma_parts_of_render(ps: Seq<PathPart>)
    requires
        normal_form(ps),
        parts_wf(ps),
    ensures
        path_parts(render(ps)) == ps,
    decreases ps.len(),
{
    if ps.len() == 0 {
        assert(path_parts(Seq::<u8>::empty()) == parts_scan(Seq::<u8>::empty(), 0, 0, true));
        assert(Seq::<u8>::empty().subrange(0, 0) =~= Seq::<u8>::empty());
        assert(path_parts(Seq::<u8>::empty()) =~= Seq::<PathPart>::empty());
    } else {
        let init = ps.drop_last();
        let p = ps.last();
        assert(p == ps[ps.len() - 1]);
        assert(normal_form(init)) by {
            assert forall|i: int| 0 < i < init.len() && (#[trigger] init[i] is Parent) implies !(init[i - 1] is Normal) by {
                assert(init[i] == ps[i] && init[i - 1] == ps[i - 1]);
            }
            assert forall|i: int| 0 < i < init.len() implies !(#[trigger] init[i] is Root) by {
                assert(init[i] == ps[i]);
            }
            assert forall|i: int| 0 <= i < init.len() implies !(#[trigger] init[i] is Current) by {
                assert(init[i] == ps[i]);
            }
        }
        assert forall|i: int| 0 <= i < init.len() implies part_wf(#[trigger] init[i]) by {
            assert(init[i] == ps[i]);
        }
        lemma_parts_of_render(init);
        lemma_render_shape(init);
        assert(part_wf(p));
        assert(!(p is Current));
        let prev = render(init);
        let pb = part_bytes(p);
        assert forall|k: int| 0 <= k < pb.len() implies #[trigger] pb[k] != SLASH || p is Root by {
            match p {
                PathPart::Normal(seg) => {},
                PathPart::Parent => {},
                _ => {},
            }
        }
        if init.len() == 0 {
            // A single component.
            assert(render(ps) == prev + pb);
            assert(prev + pb =~= pb);
            match p {
                PathPart::Root => {
                    assert(pb == seq![SLASH]);
                    assert(parts_scan(pb, 1, 1, false) == segment_part(pb.subrange(1, 1), false));
                    assert(pb.subrange(1, 1) =~= Seq::<u8>::empty());
                    assert(path_parts(pb) =~= seq![PathPart::Root]);
                },
                PathPart::Parent => {
                    assert(pb == seq![DOT, DOT]);
                    assert(pb[0] != SLASH);
                    lemma_parts_scan_tail(pb, 0, 0, true);
                    assert(pb.subrange(0, 2) =~= seq![DOT, DOT]);
                    assert(path_parts(pb) =~= seq![PathPart::Parent]);
                },
                PathPart::Normal(seg) => {
                    assert(seg[0] != SLASH);
                    lemma_parts_scan_tail(seg, 0, 0, true);
                    assert(seg.subrange(0, seg.len() as int) =~= seg);
                    assert(path_parts(seg) =~= seq![PathPart::Normal(seg)]);
                },
                PathPart::Current => {},
            }
            assert(ps =~= seq![p]);
        } else {
            assert(!(p is Root));
            assert(forall|k: int| 0 <= k < pb.len() ==> #[trigger] pb[k] != SLASH);
            let sp = segment_part(pb, false);
            assert(sp == seq![p]) by {
                match p {
                    PathPart::Parent => {
                        assert(pb =~= seq![DOT, DOT]);
                    },
                    PathPart::Normal(seg) => {},
                    _ => {},
                }
            }
            if prev.last() == SLASH {
                // The components so far are just the root.
                assert(init.last() is Root);
                assert(init.len() == 1) by {
                    if init.len() > 1 {
                        assert(init[init.len() - 1] == init.last());
                    }
                }
                assert(render(ps) == prev + pb);
                assert(render(init) == render(init.drop_last()) + part_bytes(init.last()));
                assert(init.drop_last() =~= Seq::<PathPart>::empty());
                assert(prev =~= seq![SLASH]);
                let b = prev + pb;
                assert(b[0] == SLASH);
                assert forall|k: int| 1 <= k < b.len() implies #[trigger] b[k] != SLASH by {
                    assert(b[k] == pb[k - 1]);
                }
                lemma_parts_scan_tail(b, 1, 1, false);
                assert(b.subrange(1, b.len() as int) =~= pb);
                assert(init =~= seq![PathPart::Root]);
                assert(path_parts(b) =~= seq![PathPart::Root] + sp);
                assert(ps =~= init.push(p));
            } else {
                assert(render(ps) == prev + seq![SLASH] + pb);
                let b = prev + seq![SLASH] + pb;
                if prev.len() > 0 && prev[0] == SLASH {
                    lemma_parts_scan_append(prev, pb, 1, 1, false);
                    assert(b[0] == SLASH);
                    assert(path_parts(b) == seq![PathPart::Root] + parts_scan(b, 1, 1, false));
                    assert(path_parts(prev) == seq![PathPart::Root] + parts_scan(prev, 1, 1, false));
                    assert(path_parts(b) =~= path_parts(prev) + sp);
                } else {
                    lemma_parts_scan_append(prev, pb, 0, 0, true);
                    assert(b[0] == prev[0]);
                    assert(path_parts(b) =~= path_parts(prev) + sp);
                }
                assert(ps =~= init + sp);
            }
        }
    }
}

/// The kept form of a path is a fixed point of keeping, and has the same
/// key as the path.
pub proof fn lemma_stored_form_fixed(b: Seq<u8>)
    ensures
        stored_form(stored_form(b)) == stored_form(b),
        path_key(stored_form(b)) == path_key(b),
{
    if needs_normalization(path_parts(b)) {
        let n = normalized(b);
        lemma_path_parts_root_only_first(b);
        lemma_path_parts_wf(b);
        lemma_normalize_normal_form(path_parts(b));
        lemma_normalize_wf(path_parts(b));
        lemma_parts_of_render(n);
        lemma_normalize_idempotent(n);
        assert(path_parts(stored_form(b)) == n);
    }
}

/// A path's key has the same normalized components as the path itself.
pub proof fn lemma_key_normalized(b: Seq<u8>)
    ensures
        normalized(path_key(b)) == normalized(b),
{
    let n = normalized(b);
    lemma_path_parts_root_only_first(b);
    lemma_path_parts_wf(b);
    lemma_normalize_normal_form(path_parts(b));
    lemma_normalize_wf(path_parts(b));
    lemma_parts_of_render(n);
    lemma_normalize_idempotent(n);
}

} // verus!
