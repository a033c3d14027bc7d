//! Naming of the per-repository index directory under the cache root.
use vstd::prelude::*;
use vstd::string::StringSliceAdditionalSpecFns;

use crate::cmd::str_eq;
use crate::lexical::{fx_hash, fxhash_bytes};

verus! {

/// The lowercase hexadecimal digit of a nibble.
pub open spec fn hex_digit(n: u64) -> char {
    if n < 10 {
        (('0' as u64) + n) as char
    } else {
        (('a' as u64) + n - 10) as char
    }
}

/// A 64-bit value as 16 lowercase hexadecimal digits, most significant
/// first, zero-padded (`{:016x}`).
pub open spec fn hex16(h: u64) -> Seq<char> {
    Seq::new(16, |k: int| hex_digit((h >> ((60 - 4 * k) as u64)) & 15u64))
}

/// The digit of one nibble as a one-character string.
fn hex_digit_str(n: u64) -> (r: &'static str)
    requires
        n < 16,
    ensures
        r@ == seq![hex_digit(n)],
{
    proof {
        reveal_strlit("0");
        reveal_strlit("1");
        reveal_strlit("2");
        reveal_strlit("3");
        reveal_strlit("4");
        reveal_strlit("5");
        reveal_strlit("6");
        reveal_strlit("7");
        reveal_strlit("8");
        reveal_strlit("9");
        reveal_strlit("a");
        reveal_strlit("b");
        reveal_strlit("c");
        reveal_strlit("d");
        reveal_strlit("e");
        reveal_strlit("f");
    }
    match n {
        0 => "0",
        1 => "1",
        2 => "2",
        3 => "3",
        4 => "4",
        5 => "5",
        6 => "6",
        7 => "7",
        8 => "8",
        9 => "9",
        10 => "a",
        11 => "b",
        12 => "c",
        13 => "d",
        14 => "e",
        _ => "f",
    }
}

/// Stable name of a path for use as a cache directory: the FxHash of its
/// bytes as 16 hexadecimal digits.
pub fn hash_path(path: &str) -> (r: String)
    ensures
        r@ == hex16(fx_hash(path.spec_bytes())),
{
    let h = fxhash_bytes(path.as_bytes());
    let mut out = String::new();
    let mut k: u64 = 0;
    while k < 16
        invariant
            k <= 16,
            h == fx_hash(path.spec_bytes()),
            out@ == hex16(h).take(k as int),
        decreases 16 - k,
    {
        let shift = 60 - 4 * k;
        let nibble = (h >> shift) & 15u64;
        assert(nibble < 16) by (bit_vector)
            requires
                nibble == (h >> shift) & 15u64,
        ;
        let d = hex_digit_str(nibble);
        let ghost before = out@;
        out.append(d);
        assert(hex16(h).take(k + 1) =~= hex16(h).take(k as int).push(hex16(h)[k as int]));
        k = k + 1;
    }
    assert(hex16(h).take(16) =~= hex16(h));
    out
}

/// A path joined with a relative component the way `Path::join` does: a
/// separator in between unless the base is empty or ends with one.
pub open spec fn join_path(base: Seq<char>, rel: Seq<char>) -> Seq<char> {
    if base.len() == 0 {
        rel
    } else if base.last() == '/' {
        base + rel
    } else {
        base + seq!['/'] + rel
    }
}

/// Join a relative component onto a path.
fn join_onto(base: String, rel: &str) -> (r: String)
    ensures
        r@ == join_path(base@, rel@),
{
    let mut out = base;
    proof {
        reveal_strlit("/");
    }
    let view = out.as_str();
    let bytes = view.as_bytes();
    let n = bytes.len();
    assert(bytes@ == vstd::utf8::encode_utf8(out@));
    if n == 0 {
        proof {
            vstd::utf8::encode_utf8_decode_utf8(out@);
            assert(vstd::utf8::encode_utf8(out@) =~= Seq::<u8>::empty());
            assert(vstd::utf8::decode_utf8(Seq::<u8>::empty()) =~= Seq::<char>::empty());
        }
        return rel.to_owned();
    }
    let last = bytes[n - 1];
    proof {
        vstd::utf8::encode_utf8_decode_utf8(out@);
        lemma_last_byte_slash(out@);
    }
    if last != 0x2f {
        out.append("/");
    }
    out.append(rel);
    out
}

/// A string's last character is `/` exactly when its last UTF-8 byte is.
proof fn lemma_last_byte_slash(s: Seq<char>)
    requires
        s.len() > 0,
    ensures
        (vstd::utf8::encode_utf8(s).last() == 0x2f) == (s.last() == '/'),
{
    let init = s.drop_last();
    assert(s =~= init + seq![s.last()]);
    crate::types::path::lemma_encode_utf8_concat(init, seq![s.last()]);
    let c = s.last();
    let tail = vstd::utf8::encode_utf8(seq![c]);
    assert(seq![c].drop_first() =~= Seq::<char>::empty());
    assert(vstd::utf8::encode_utf8(Seq::<char>::empty()) =~= Seq::<u8>::empty());
    assert(tail =~= vstd::utf8::encode_scalar(c as u32));
    assert(vstd::utf8::encode_utf8(s) =~= vstd::utf8::encode_utf8(init) + tail);
    vstd::utf8::char_is_scalar(c);
    let v = c as u32;
    vstd::utf8::char_u32_cast(c, v);
    assert(tail.len() > 0);
    assert(vstd::utf8::encode_utf8(s).last() == tail.last());
    assert(('/' as u32) == 0x2f);
    if vstd::utf8::has_width_1_encoding(v) {
        assert(vstd::utf8::leading_byte_width_1(v) == v as u8) by (bit_vector)
            requires
                v <= 0x7f,
        ;
        assert(tail.last() == v as u8);
    } else {
        assert(vstd::utf8::last_continuation_byte(v) >= 0x80) by (bit_vector);
        assert(tail.last() == vstd::utf8::last_continuation_byte(v));
        assert(v != 0x2f);
    }
}

/// The index directory of a repository under the cache root:
/// `<cache_root>/search/<hash_path(repo_root)>`.
pub fn get_index_dir(cache_root: &str, repo_root: &str) -> (r: String)
    ensures
        r@ == join_path(join_path(cache_root@, "search"@), hex16(fx_hash(repo_root.spec_bytes()))),
{
    let repo_hash = hash_path(repo_root);
    let base = join_onto(cache_root.to_owned(), "search");
    join_onto(base, repo_hash.as_str())
}

/// The value of a decimal numeral, as `usize::from_str` reads it: an
/// optional `+` followed by one or more ASCII digits.
pub open spec fn decimal_value(b: Seq<u8>) -> Option<int> {
    let digits = if b.len() > 0 && b[0] == 0x2b {
        b.subrange(1, b.len() as int)
    } else {
        b
    };
    if digits.len() > 0 && all_digits(digits) {
        Some(digits_value(digits))
    } else {
        None
    }
}

/// Every byte is an ASCII digit.
pub open spec fn all_digits(d: Seq<u8>) -> bool {
    forall|i: int| 0 <= i < d.len() ==> 0x30 <= #[trigger] d[i] <= 0x39
}

/// The value of a string of ASCII digits.
pub open spec fn digits_value(d: Seq<u8>) -> int
    decreases d.len(),
{
    if d.len() == 0 {
        0
    } else {
        10 * digits_value(d.drop_last()) + (d.last() - 0x30)
    }
}

proof fn lemma_digits_value_nonneg(d: Seq<u8>)
    requires
        forall|i: int| 0 <= i < d.len() ==> 0x30 <= #[trigger] d[i] <= 0x39,
    ensures
        digits_value(d) >= 0,
    decreases d.len(),
{
    if d.len() > 0 {
        lemma_digits_value_nonneg(d.drop_last());
    }
}

/// A decimal numeral's value when it fits a `usize`.
pub open spec fn parsed_usize(b: Seq<u8>) -> Option<usize> {
    match decimal_value(b) {
        Some(v) => if 0 <= v <= usize::MAX {
            Some(v as usize)
        } else {
            None
        },
        None => None,
    }
}

/// Parse a decimal `usize` the way `str::parse::<usize>` does: `None` on
/// an empty string, a stray character, or a value over `usize::MAX`.
pub fn parse_usize(s: &str) -> (r: Option<usize>)
    ensures
        r == parsed_usize(s.spec_bytes()),
{
    let b = s.as_bytes();
    let ghost bytes = b@;
    let start: usize = if b.len() > 0 && b[0] == 0x2b {
        1
    } else {
        0
    };
    let ghost digits = bytes.subrange(start as int, bytes.len() as int);
    assert(digits =~= if bytes.len() > 0 && bytes[0] == 0x2b {
        bytes.subrange(1, bytes.len() as int)
    } else {
        bytes
    });
    if start == b.len() {
        return None;
    }
    let mut value: usize = 0;
    let mut overflow = false;
    let mut i: usize = start;
    while i < b.len()
        invariant
            bytes == b@,
            start <= i <= bytes.len(),
            digits == bytes.subrange(start as int, bytes.len() as int),
            digits == (if bytes.len() > 0 && bytes[0] == 0x2b {
                bytes.subrange(1, bytes.len() as int)
            } else {
                bytes
            }),
            bytes == s.spec_bytes(),
            forall|k: int| 0 <= k < i - start ==> 0x30 <= #[trigger] digits[k] <= 0x39,
            !overflow ==> value == digits_value(digits.take(i - start)),
            overflow ==> digits_value(digits.take(i - start)) > usize::MAX,
        decreases bytes.len() - i,
    {
        let c = b[i];
        if c < 0x30 || c > 0x39 {
            assert(digits[i - start] == c);
            assert(!all_digits(digits));
            return None;
        }
        let ghost prefix = digits.take(i - start);
        assert(digits.take(i - start + 1).drop_last() =~= prefix);
        assert(digits.take(i - start + 1).last() == c);
        proof {
            lemma_digits_value_nonneg(prefix);
        }
        let d = (c - 0x30) as usize;
        if !overflow {
            match value.checked_mul(10) {
                Some(m) => match m.checked_add(d) {
                    Some(v) => {
                        value = v;
                    },
                    None => {
                        overflow = true;
                    },
                },
                None => {
                    overflow = true;
                },
            }
        }
        i = i + 1;
    }
    assert(digits.take(bytes.len() - start) =~= digits);
    proof {
        lemma_digits_value_nonneg(digits);
    }
    if overflow {
        None
    } else {
        Some(value)
    }
}

/// The result limit: the `--limit` value when it parses, else 50.
pub fn parse_limit(value: Option<&str>) -> (r: usize)
    ensures
        r == match value {
            Some(v) => match parsed_usize(v.spec_bytes()) {
                Some(n) => n,
                None => 50,
            },
            None => 50,
        },
{
    match value {
        Some(v) => match parse_usize(v) {
            Some(n) => n,
            None => 50,
        },
        None => 50,
    }
}

/// Whether the arguments ask for help: `--help` or `-h` anywhere.
pub fn has_help_flag(args: &[String]) -> (r: bool)
    ensures
        r == exists|i: int|
            0 <= i < args@.len() && (#[trigger] args@[i]@ == "--help"@ || args@[i]@ == "-h"@),
{
    let mut i: usize = 0;
    while i < args.len()
        invariant
            i <= args@.len(),
            forall|k: int| 0 <= k < i ==> !(#[trigger] args@[k]@ == "--help"@ || args@[k]@ == "-h"@),
        decreases args@.len() - i,
    {
        if str_eq(args[i].as_str(), "--help") || str_eq(args[i].as_str(), "-h") {
            return true;
        }
        i = i + 1;
    }
    false
}

/// A search flag that is accepted but not implemented yet.
#[derive(Debug, Clone, Copy, PartialEq, Eq, Structural)]
pub enum Unimplemented {
    Update,
    Ast,
    BlastRadius,
    Hot,
    Cold,
    Risky,
}

/// The parsed options of the search command.
pub struct SearchOptions {
    pub json: bool,
    pub build: bool,
    pub rebuild: bool,
    pub update: bool,
    pub ast: bool,
    pub blast_radius: bool,
    pub hot: bool,
    pub cold: bool,
    pub risky: bool,
    pub stats: bool,
    pub clear_cache: bool,
    pub limit: usize,
    pub query: Option<String>,
}

/// What the search command does next.
#[derive(Debug, Clone, Copy, PartialEq, Eq, Structural)]
pub enum SearchStep {
    /// Print help and succeed.
    PrintHelp,
    /// Report the flag as not implemented and fail.
    RejectUnimplemented(Unimplemented),
    /// Find the repository root and its index directory.
    ResolveRepo,
    /// Delete every search index and succeed.
    ClearCache,
    /// Show the index statistics.
    ShowStats,
    /// Statistics were asked for but there is no index: report it and fail.
    MissingIndex,
    /// Build the index, removing the old one first when asked to.
    Build { remove_old: bool },
    /// The index was built and no query was given: succeed.
    FinishAfterBuild,
    /// No query: print the usage and fail.
    Usage,
    /// An empty query after a build: fail without output.
    FailWithoutQuery,
    /// No index yet: build it, then search.
    AutoBuild,
    /// Run the query.
    Search,
}

/// The first step: help when asked for, else the first flag that is not
/// implemented (in the order update, ast, blast radius, hot, cold, risky),
/// else resolving the repository.
pub fn search_first_step(wants_help: bool, opts: &SearchOptions) -> (r: SearchStep)
    ensures
        r == (if wants_help {
            SearchStep::PrintHelp
        } else if opts.update {
            SearchStep::RejectUnimplemented(Unimplemented::Update)
        } else if opts.ast {
            SearchStep::RejectUnimplemented(Unimplemented::Ast)
        } else if opts.blast_radius {
            SearchStep::RejectUnimplemented(Unimplemented::BlastRadius)
        } else if opts.hot {
            SearchStep::RejectUnimplemented(Unimplemented::Hot)
        } else if opts.cold {
            SearchStep::RejectUnimplemented(Unimplemented::Cold)
        } else if opts.risky {
            SearchStep::RejectUnimplemented(Unimplemented::Risky)
        } else {
            SearchStep::ResolveRepo
        }),
{
    if wants_help {
        SearchStep::PrintHelp
    } else if opts.update {
        SearchStep::RejectUnimplemented(Unimplemented::Update)
    } else if opts.ast {
        SearchStep::RejectUnimplemented(Unimplemented::Ast)
    } else if opts.blast_radius {
        SearchStep::RejectUnimplemented(Unimplemented::BlastRadius)
    } else if opts.hot {
        SearchStep::RejectUnimplemented(Unimplemented::Hot)
    } else if opts.cold {
        SearchStep::RejectUnimplemented(Unimplemented::Cold)
    } else if opts.risky {
        SearchStep::RejectUnimplemented(Unimplemented::Risky)
    } else {
        SearchStep::ResolveRepo
    }
}

/// Whether the options carry a non-empty query.
pub open spec fn has_query(opts: SearchOptions) -> bool {
    match opts.query {
        Some(q) => q@.len() > 0,
        None => false,
    }
}

/// The step after the repository is resolved, given whether the index
/// exists and whether this run has built it: clearing the cache, then
/// statistics, then an asked-for build, then the query.
pub fn search_next_step(opts: &SearchOptions, index_exists: bool, built: bool) -> (r: SearchStep)
    ensures
        r == (if opts.clear_cache {
            SearchStep::ClearCache
        } else if opts.stats {
            if index_exists {
                SearchStep::ShowStats
            } else {
                SearchStep::MissingIndex
            }
        } else if (opts.build || opts.rebuild) && !built {
            SearchStep::Build { remove_old: opts.rebuild }
        } else if (opts.build || opts.rebuild) && opts.query is None {
            SearchStep::FinishAfterBuild
        } else if !has_query(*opts) {
            if opts.build || opts.rebuild {
                SearchStep::FailWithoutQuery
            } else {
                SearchStep::Usage
            }
        } else if !index_exists {
            SearchStep::AutoBuild
        } else {
            SearchStep::Search
        }),
{
    let build_asked = opts.build || opts.rebuild;
    if opts.clear_cache {
        return SearchStep::ClearCache;
    }
    if opts.stats {
        return if index_exists {
            SearchStep::ShowStats
        } else {
            SearchStep::MissingIndex
        };
    }
    if build_asked && !built {
        return SearchStep::Build { remove_old: opts.rebuild };
    }
    let query_given = match &opts.query {
        Some(q) => !q.as_str().is_empty(),
        None => false,
    };
    if build_asked && opts.query.is_none() {
        return SearchStep::FinishAfterBuild;
    }
    if !query_given {
        return if build_asked {
            SearchStep::FailWithoutQuery
        } else {
            SearchStep::Usage
        };
    }
    if !index_exists {
        SearchStep::AutoBuild
    } else {
        SearchStep::Search
    }
}

} // verus!
