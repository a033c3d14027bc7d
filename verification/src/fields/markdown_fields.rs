//! Field classification for Markdown files by line scanning.
//!
//! - a line whose trimmed text starts with three backticks or tildes is a
//!   code fence: it toggles the code-block state and is `FunctionBody`;
//! - non-blank lines inside a code block are `FunctionBody`;
//! - blank lines outside code blocks are skipped;
//! - `#`, `##` or `###` headings are `TypeDefinition`;
//! - lines holding a `[text](url)` link are `ImportExport`;
//! - all other lines are `Comment`.
use std::ops::Range;
use vstd::prelude::*;
use vstd::string::StringSliceAdditionalSpecFns;

use crate::text::{find_from, first_from, lemma_first_from, trim, trim_bounds};
use crate::types::query::SearchField;

use super::{newline_len, newline_width};

verus! {

/// The lines of `s` as `str::lines` splits them: `(start, end)` byte bounds
/// of each line's text, without its `\n` or `\r\n` terminator; a final line
/// without terminator counts when non-empty. `start` is the current line's
/// start and `i` the scan position.
pub open spec fn lines_scan(s: Seq<u8>, start: int, i: int) -> Seq<(int, int)>
    decreases s.len() - i,
{
    if i >= s.len() {
        if start < s.len() {
            seq![(start, s.len() as int)]
        } else {
            Seq::empty()
        }
    } else if s[i] == 0x0a {
        seq![(start, if i > start && s[i - 1] == 0x0d { i - 1 } else { i })] + lines_scan(
            s,
            i + 1,
            i + 1,
        )
    } else {
        lines_scan(s, start, i + 1)
    }
}

/// The lines of `s`.
pub open spec fn lines_of(s: Seq<u8>) -> Seq<(int, int)> {
    lines_scan(s, 0, 0)
}

/// The trimmed text starts with three `c` bytes.
pub open spec fn starts3(t: Seq<u8>, c: u8) -> bool {
    t.len() >= 3 && t[0] == c && t[1] == c && t[2] == c
}

/// The trimmed text is an H1–H3 heading: up to its first space it is one to
/// three `#`.
pub open spec fn is_heading_text(t: Seq<u8>) -> bool {
    ||| (t.len() > 1 && t[0] == 0x23 && t[1] == 0x20)
    ||| (t.len() > 2 && t[0] == 0x23 && t[1] == 0x23 && t[2] == 0x20)
    ||| (t.len() > 3 && t[0] == 0x23 && t[1] == 0x23 && t[2] == 0x23 && t[3] == 0x20)
}

/// A `[` at `i` whose first following `]` is directly followed by `(`, with
/// a `)` somewhere after that.
pub open spec fn link_at(t: Seq<u8>, i: int) -> bool {
    let c = first_from(t, i + 1, 0x5d);
    &&& t[i] == 0x5b
    &&& c < t.len()
    &&& c + 1 < t.len()
    &&& t[c + 1] == 0x28
    &&& first_from(t, c + 2, 0x29) < t.len()
}

/// The text contains a Markdown link `[text](url)`.
pub open spec fn has_link(t: Seq<u8>) -> bool {
    exists|i: int| 0 <= i < t.len() && link_at(t, i)
}

/// The field of one line given its trimmed text and whether a code block is
/// open, with the code-block state after the line.
pub open spec fn line_field(t: Seq<u8>, in_code: bool) -> (Option<SearchField>, bool) {
    if starts3(t, 0x60) || starts3(t, 0x7e) {
        (Some(SearchField::FunctionBody), !in_code)
    } else if in_code {
        (if t.len() > 0 { Some(SearchField::FunctionBody) } else { None }, true)
    } else if t.len() == 0 {
        (None, false)
    } else if is_heading_text(t) {
        (Some(SearchField::TypeDefinition), false)
    } else if has_link(t) {
        (Some(SearchField::ImportExport), false)
    } else {
        (Some(SearchField::Comment), false)
    }
}

/// The regions classified from the given lines of `s`, and the code-block
/// state after them.
pub open spec fn classify_lines(s: Seq<u8>, lines: Seq<(int, int)>) -> (
    Seq<(int, int, SearchField)>,
    bool,
)
    decreases lines.len(),
{
    if lines.len() == 0 {
        (Seq::empty(), false)
    } else {
        let prev = classify_lines(s, lines.drop_last());
        let line = lines.last();
        let step = line_field(trim(s.subrange(line.0, line.1)), prev.1);
        (
            match step.0 {
                Some(f) => prev.0.push((line.0, line.1, f)),
                None => prev.0,
            },
            step.1,
        )
    }
}

/// The Markdown regions of `s`: `(start, end, field)` per classified line.
pub open spec fn markdown_regions(s: Seq<u8>) -> Seq<(int, int, SearchField)> {
    classify_lines(s, lines_of(s)).0
}

/// The regions as returned: byte ranges with their fields.
pub open spec fn regions_view(r: Seq<(Range<usize>, SearchField)>) -> Seq<(int, int, SearchField)> {
    r.map_values(|x: (Range<usize>, SearchField)| (x.0.start as int, x.0.end as int, x.1))
}

/// Whether the trimmed line is an H1, H2 or H3 heading.
pub fn is_heading(trimmed: &[u8]) -> (r: bool)
    ensures
        r == is_heading_text(trimmed@),
{
    let n = trimmed.len();
    (n > 1 && trimmed[0] == 0x23 && trimmed[1] == 0x20) || (n > 2 && trimmed[0] == 0x23
        && trimmed[1] == 0x23 && trimmed[2] == 0x20) || (n > 3 && trimmed[0] == 0x23 && trimmed[1]
        == 0x23 && trimmed[2] == 0x23 && trimmed[3] == 0x20)
}

/// Whether the line contains a Markdown link `[text](url)`.
pub fn contains_markdown_link(line: &[u8]) -> (r: bool)
    ensures
        r == has_link(line@),
{
    let len = line.len();
    let mut i: usize = 0;
    while i < len
        invariant
            i <= len == line@.len(),
            forall|k: int| 0 <= k < i ==> !link_at(line@, k),
        decreases len - i,
    {
        if line[i] == 0x5b {
            let close = find_from(line, i + 1, 0x5d);
            proof {
                lemma_first_from(line@, i + 1, 0x5d);
            }
            if close < len && close + 1 < len && line[close + 1] == 0x28 {
                let paren = find_from(line, close + 2, 0x29);
                if paren < len {
                    assert(link_at(line@, i as int));
                    return true;
                }
            }
        }
        i = i + 1;
    }
    false
}

/// The lines scanned from `start` through a stretch without `\n` are those
/// scanned from its end.
proof fn lemma_lines_scan_skip(s: Seq<u8>, start: int, i: int, j: int)
    requires
        0 <= start <= i <= j <= s.len(),
        forall|k: int| i <= k < j ==> s[k] != 0x0a,
    ensures
        lines_scan(s, start, i) == lines_scan(s, start, j),
    decreases j - i,
{
    if i < j {
        lemma_lines_scan_skip(s, start, i + 1, j);
    }
}

/// Every scanned line lies within the text.
pub proof fn lemma_lines_in_bounds(s: Seq<u8>, start: int, i: int)
    requires
        0 <= start <= i <= s.len(),
    ensures
        forall|k: int|
            0 <= k < lines_scan(s, start, i).len() ==> start <= #[trigger] lines_scan(s, start, i)[k].0
                <= lines_scan(s, start, i)[k].1 <= s.len(),
    decreases s.len() - i,
{
    let x = lines_scan(s, start, i);
    if i < s.len() {
        if s[i] == 0x0a {
            lemma_lines_in_bounds(s, i + 1, i + 1);
            let rest = lines_scan(s, i + 1, i + 1);
            let first = (start, if i > start && s[i - 1] == 0x0d { i - 1 } else { i });
            assert(x == seq![first] + rest);
            assert forall|k: int| 0 <= k < x.len() implies start <= #[trigger] x[k].0 <= x[k].1
                <= s.len() by {
                if k > 0 {
                    assert(x[k] == rest[k - 1]);
                    assert(i + 1 <= rest[k - 1].0 <= rest[k - 1].1 <= s.len());
                } else {
                    assert(x[k] == first);
                }
            }
        } else {
            lemma_lines_in_bounds(s, start, i + 1);
            assert(x == lines_scan(s, start, i + 1));
        }
    } else if start < s.len() {
        assert(x == seq![(start, s.len() as int)]);
        assert(x[0] == (start, s.len() as int));
    } else {
        assert(x.len() == 0);
    }
}

/// A line as `str::lines` gives it: it holds no line feed, and it ends at
/// the end of the text, at a line feed, or at a carriage return directly
/// followed by a line feed.
pub open spec fn is_line_of(s: Seq<u8>, a: int, b: int) -> bool {
    &&& 0 <= a <= b <= s.len()
    &&& forall|k: int| a <= k < b ==> s[k] != 0x0a
    &&& (b == s.len() || s[b] == 0x0a || (s[b] == 0x0d && b + 1 < s.len() && s[b + 1] == 0x0a))
}

proof fn lemma_lines_scan_shape(s: Seq<u8>, start: int, i: int)
    requires
        0 <= start <= i <= s.len(),
        forall|k: int| start <= k < i ==> s[k] != 0x0a,
    ensures
        forall|j: int|
            0 <= j < lines_scan(s, start, i).len() ==> start <= (#[trigger] lines_scan(s, start, i)[j]).0
                && is_line_of(s, lines_scan(s, start, i)[j].0, lines_scan(s, start, i)[j].1),
    decreases s.len() - i,
{
    let x = lines_scan(s, start, i);
    if i < s.len() {
        if s[i] == 0x0a {
            lemma_lines_scan_shape(s, i + 1, i + 1);
            let rest = lines_scan(s, i + 1, i + 1);
            let first = (start, if i > start && s[i - 1] == 0x0d { i - 1 } else { i });
            assert(x == seq![first] + rest);
            assert forall|j: int| 0 <= j < x.len() implies start <= (#[trigger] x[j]).0 && is_line_of(
                s,
                x[j].0,
                x[j].1,
            ) by {
                if j > 0 {
                    assert(x[j] == rest[j - 1]);
                } else {
                    assert(x[j] == first);
                }
            }
        } else {
            lemma_lines_scan_shape(s, start, i + 1);
            assert(x == lines_scan(s, start, i + 1));
        }
    } else if start < s.len() {
        assert(x == seq![(start, s.len() as int)]);
        assert(x[0] == (start, s.len() as int));
        assert(is_line_of(s, start, s.len() as int));
    }
}

/// Every line of a text holds no line feed and ends at the end of the text,
/// at a line feed, or at a carriage return directly followed by a line feed.
pub proof fn lemma_lines_shape(s: Seq<u8>)
    ensures
        forall|j: int|
            0 <= j < lines_of(s).len() ==> is_line_of(s, (#[trigger] lines_of(s)[j]).0, lines_of(s)[j].1),
{
    lemma_lines_scan_shape(s, 0, 0);
}

/// Classify the lines of Markdown `source` into `(byte_range, field)` regions.
pub fn classify_markdown_fields(source: &str) -> (r: Result<
    Vec<(Range<usize>, SearchField)>,
    crate::types::error::SearchError,
>)
    ensures
        r matches Ok(v) && regions_view(v@) == markdown_regions(source.spec_bytes()),
{
    let bytes = source.as_bytes();
    let len = bytes.len();
    let mut results: Vec<(Range<usize>, SearchField)> = Vec::new();
    let mut byte_offset: usize = 0;
    let mut in_code_block = false;
    let ghost s = bytes@;
    let ghost mut done: Seq<(int, int)> = Seq::empty();
    proof {
        assert(lines_of(s) == done + lines_scan(s, 0, 0));
    }
    while byte_offset < len
        invariant
            s == bytes@,
            bytes@ == source.spec_bytes(),
            len == s.len(),
            byte_offset <= len,
            lines_of(s) == done + lines_scan(s, byte_offset as int, byte_offset as int),
            classify_lines(s, done) == (regions_view(results@), in_code_block),
        decreases len - byte_offset,
    {
        let nl = find_from(bytes, byte_offset, 0x0a);
        proof {
            lemma_first_from(s, byte_offset as int, 0x0a);
            lemma_lines_scan_skip(s, byte_offset as int, byte_offset as int, nl as int);
        }
        let line_end = if nl < len && nl > byte_offset && bytes[nl - 1] == 0x0d {
            nl - 1
        } else {
            nl
        };
        let line_len = line_end - byte_offset;
        let (ta, tb) = trim_bounds(bytes, byte_offset, line_end);
        let trimmed = crate::text::copy_range(bytes, ta, tb);
        let sep = newline_len(source, byte_offset + line_len);
        let ghost line = (byte_offset as int, line_end as int);
        let ghost prev_code = in_code_block;
        let ghost t = trimmed@;
        assert(t == trim(s.subrange(line.0, line.1)));
        let field: Option<SearchField> = if (trimmed.len() >= 3 && trimmed[0] == 0x60 && trimmed[1]
            == 0x60 && trimmed[2] == 0x60) || (trimmed.len() >= 3 && trimmed[0] == 0x7e
            && trimmed[1] == 0x7e && trimmed[2] == 0x7e) {
            in_code_block = !in_code_block;
            Some(SearchField::FunctionBody)
        } else if in_code_block {
            if trimmed.len() > 0 {
                Some(SearchField::FunctionBody)
            } else {
                None
            }
        } else if trimmed.len() == 0 {
            None
        } else if is_heading(trimmed.as_slice()) {
            Some(SearchField::TypeDefinition)
        } else if contains_markdown_link(trimmed.as_slice()) {
            Some(SearchField::ImportExport)
        } else {
            Some(SearchField::Comment)
        };
        assert(line_field(t, prev_code) == (field, in_code_block));
        let ghost before = results@;
        match field {
            Some(f) => {
                results.push((byte_offset..byte_offset + line_len, f));
                assert(regions_view(results@) =~= regions_view(before).push((line.0, line.1, f)));
            },
            None => {},
        }
        proof {
            assert(done.push(line).drop_last() =~= done);
            assert(s == source.spec_bytes());
            if nl < len {
                assert(s[nl as int] == 0x0a);
                if line_end < nl {
                    assert(s[line_end as int] == 0x0d);
                    assert(sep == 2);
                } else {
                    assert(sep == 1);
                }
            } else {
                assert(sep == 0);
            }
            if nl < len {
                assert(lines_scan(s, byte_offset as int, nl as int) == seq![line] + lines_scan(
                    s,
                    nl + 1,
                    nl + 1,
                ));
            } else {
                assert(lines_scan(s, byte_offset as int, nl as int) == seq![line]);
                assert(lines_scan(s, len as int, len as int) =~= Seq::<(int, int)>::empty());
            }
            assert(done.push(line) + lines_scan(
                s,
                (byte_offset + line_len + sep) as int,
                (byte_offset + line_len + sep) as int,
            ) =~= done + lines_scan(s, byte_offset as int, byte_offset as int));
            done = done.push(line);
        }
        byte_offset = byte_offset + line_len + sep;
    }
    proof {
        assert(lines_scan(s, len as int, len as int) =~= Seq::<(int, int)>::empty());
        assert(done =~= lines_of(s));
    }
    Ok(results)
}

/// The number of the given lines of `s` whose trimmed text starts with
/// three backticks or three tildes.
pub open spec fn fence_count(s: Seq<u8>, lines: Seq<(int, int)>) -> nat
    decreases lines.len(),
{
    if lines.len() == 0 {
        0
    } else {
        let t = trim(s.subrange(lines.last().0, lines.last().1));
        fence_count(s, lines.drop_last()) + if t.len() >= 3 && ((t[0] == 0x60 && t[1] == 0x60
            && t[2] == 0x60) || (t[0] == 0x7e && t[1] == 0x7e && t[2] == 0x7e)) {
            1nat
        } else {
            0nat
        }
    }
}

/// After any run of lines a code block is open exactly when an odd number
/// of them were fences.
pub proof fn lemma_code_block_open_after_odd_fences(s: Seq<u8>, lines: Seq<(int, int)>)
    ensures
        classify_lines(s, lines).1 == (fence_count(s, lines) % 2 == 1),
    decreases lines.len(),
{
    if lines.len() > 0 {
        lemma_code_block_open_after_odd_fences(s, lines.drop_last());
    }
}

/// A line whose trimmed text starts with three backticks or three tildes is
/// a code fence: it is function body, and it opens a code block when none
/// is open and closes the open one otherwise.
pub proof fn lemma_fence_line(t: Seq<u8>, in_code: bool)
    requires
        t.len() >= 3,
        (t[0] == 0x60 && t[1] == 0x60 && t[2] == 0x60) || (t[0] == 0x7e && t[1] == 0x7e && t[2]
            == 0x7e),
    ensures
        line_field(t, in_code) == (Some(SearchField::FunctionBody), !in_code),
{
}

/// Inside a code block every line that is not a fence is code: function
/// body when its trimmed text is not empty, nothing otherwise, and the block
/// stays open.
pub proof fn lemma_code_block_line(t: Seq<u8>)
    requires
        !(t.len() >= 3 && ((t[0] == 0x60 && t[1] == 0x60 && t[2] == 0x60) || (t[0] == 0x7e && t[1]
            == 0x7e && t[2] == 0x7e))),
    ensures
        line_field(t, true) == (if t.len() > 0 {
            Some(SearchField::FunctionBody)
        } else {
            None
        }, true),
{
}

/// Outside a code block, for a line that is not a fence: an empty line has
/// no field; a line starting with `# `, `## ` or `### ` is a type
/// definition; a line starting with `####` is not; a non-empty line that is
/// no heading and has no `[` is prose (a comment); no such line opens a
/// code block.
pub proof fn lemma_text_line(t: Seq<u8>)
    requires
        !(t.len() >= 3 && ((t[0] == 0x60 && t[1] == 0x60 && t[2] == 0x60) || (t[0] == 0x7e && t[1]
            == 0x7e && t[2] == 0x7e))),
    ensures
        line_field(t, false).1 == false,
        t.len() == 0 ==> line_field(t, false).0 is None,
        (t.len() > 1 && t[0] == 0x23 && t[1] == 0x20) || (t.len() > 2 && t[0] == 0x23 && t[1]
            == 0x23 && t[2] == 0x20) || (t.len() > 3 && t[0] == 0x23 && t[1] == 0x23 && t[2]
            == 0x23 && t[3] == 0x20) ==> line_field(t, false).0 == Some(SearchField::TypeDefinition),
        t.len() > 3 && t[0] == 0x23 && t[1] == 0x23 && t[2] == 0x23 && t[3] == 0x23 ==> line_field(
            t,
            false,
        ).0 != Some(SearchField::TypeDefinition),
        t.len() > 0 && !(t.len() > 1 && t[0] == 0x23 && t[1] == 0x20) && !(t.len() > 2 && t[0]
            == 0x23 && t[1] == 0x23 && t[2] == 0x20) && !(t.len() > 3 && t[0] == 0x23 && t[1]
            == 0x23 && t[2] == 0x23 && t[3] == 0x20) && (forall|m: int| 0 <= m < t.len() ==> t[m]
            != 0x5b) ==> line_field(t, false).0 == Some(SearchField::Comment),
{
}

/// Outside a code block, a line that is not a fence or a heading and holds
/// a link `[text](url)` is an import: a `[` at `i`, the first `]` after it
/// at `j`, directly followed by `(`, and a `)` at `k` after that.
pub proof fn lemma_link_line(t: Seq<u8>, i: int, j: int, k: int)
    requires
        !(t.len() >= 3 && ((t[0] == 0x60 && t[1] == 0x60 && t[2] == 0x60) || (t[0] == 0x7e && t[1]
            == 0x7e && t[2] == 0x7e))),
        !(t.len() > 1 && t[0] == 0x23 && t[1] == 0x20),
        !(t.len() > 2 && t[0] == 0x23 && t[1] == 0x23 && t[2] == 0x20),
        !(t.len() > 3 && t[0] == 0x23 && t[1] == 0x23 && t[2] == 0x23 && t[3] == 0x20),
        0 <= i < j,
        j + 1 < k < t.len(),
        t[i] == 0x5b,
        t[j] == 0x5d,
        t[j + 1] == 0x28,
        t[k] == 0x29,
        forall|m: int| i < m < j ==> t[m] != 0x5d,
    ensures
        line_field(t, false) == (Some(SearchField::ImportExport), false),
{
    lemma_first_from(t, i + 1, 0x5d);
    assert(first_from(t, i + 1, 0x5d) == j);
    lemma_first_from(t, j + 2, 0x29);
    assert(first_from(t, j + 2, 0x29) <= k);
    assert(link_at(t, i));
}

/// Every classified region lies within the source text.
pub proof fn lemma_markdown_regions_in_bounds(s: Seq<u8>)
    ensures
        forall|k: int|
            0 <= k < markdown_regions(s).len() ==> 0 <= #[trigger] markdown_regions(s)[k].0
                <= markdown_regions(s)[k].1 <= s.len(),
{
    lemma_lines_in_bounds(s, 0, 0);
    lemma_classified_lines_in_bounds(s, lines_of(s));
}

proof fn lemma_classified_lines_in_bounds(s: Seq<u8>, lines: Seq<(int, int)>)
    requires
        forall|k: int| 0 <= k < lines.len() ==> 0 <= #[trigger] lines[k].0 <= lines[k].1 <= s.len(),
    ensures
        forall|k: int|
            0 <= k < classify_lines(s, lines).0.len() ==> 0 <= #[trigger] classify_lines(
                s,
                lines,
            ).0[k].0 <= classify_lines(s, lines).0[k].1 <= s.len(),
    decreases lines.len(),
{
    if lines.len() > 0 {
        let init = lines.drop_last();
        assert forall|k: int| 0 <= k < init.len() implies 0 <= #[trigger] init[k].0 <= init[k].1
            <= s.len() by {
            assert(init[k] == lines[k]);
        }
        lemma_classified_lines_in_bounds(s, init);
        assert(lines.last() == lines[lines.len() - 1]);
        assert(0 <= lines[lines.len() - 1].0 <= lines[lines.len() - 1].1 <= s.len());
        let prev = classify_lines(s, init).0;
        let cur = classify_lines(s, lines).0;
        assert forall|k: int| 0 <= k < cur.len() implies 0 <= #[trigger] cur[k].0 <= cur[k].1
            <= s.len() by {
            if k < prev.len() {
                assert(cur[k] == prev[k]);
            } else {
                assert(cur[k].0 == lines.last().0 && cur[k].1 == lines.last().1);
            }
        }
    }
}

} // verus!
