//! Command-line helpers shared by subcommand parsers: subcommand routing,
//! flag detection, flag extraction and flag injection.
use vstd::prelude::*;
use vstd::string::StringSliceAdditionalSpecFns;
use vstd::utf8::encode_utf8;

use crate::text::bytes_eq;

pub mod search;

verus! {

/// The subcommands the pre-parse router recognizes.
pub open spec fn known_subcommand(name: Seq<char>) -> bool {
    ||| name == "agents"@
    ||| name == "build"@
    ||| name == "completions"@
    ||| name == "discover"@
    ||| name == "git"@
    ||| name == "init"@
    ||| name == "learn"@
    ||| name == "lint"@
    ||| name == "pkg"@
    ||| name == "rewrite"@
    ||| name == "search"@
    ||| name == "stats"@
    ||| name == "test"@
}

/// Whether two strings are equal.
pub fn str_eq(a: &str, b: &str) -> (r: bool)
    ensures
        r == (a@ == b@),
{
    let r = bytes_eq(a.as_bytes(), b.as_bytes());
    proof {
        vstd::utf8::encode_utf8_decode_utf8(a@);
        vstd::utf8::encode_utf8_decode_utf8(b@);
    }
    r
}

/// Whether `name` is a registered subcommand.
pub fn is_known_subcommand(name: &str) -> (r: bool)
    ensures
        r == known_subcommand(name@),
{
    str_eq(name, "agents") || str_eq(name, "build") || str_eq(name, "completions") || str_eq(
        name,
        "discover",
    ) || str_eq(name, "git") || str_eq(name, "init") || str_eq(name, "learn") || str_eq(
        name,
        "lint",
    ) || str_eq(name, "pkg") || str_eq(name, "rewrite") || str_eq(name, "search") || str_eq(
        name,
        "stats",
    ) || str_eq(name, "test")
}

/// The argument is the flag itself, or the flag followed by `=` and a value
/// (compared byte-wise, as `str::starts_with` does).
pub open spec fn matches_flag(arg: Seq<char>, flag: Seq<char>) -> bool {
    let a = encode_utf8(arg);
    let f = encode_utf8(flag);
    a == f || (f.len() < a.len() && a.subrange(0, f.len() as int) == f && a[f.len() as int] == 0x3d)
}

/// Whether `a` starts with `prefix`.
fn bytes_starts_with(a: &[u8], prefix: &[u8]) -> (r: bool)
    ensures
        r == (prefix@.len() <= a@.len() && a@.subrange(0, prefix@.len() as int) == prefix@),
{
    if prefix.len() > a.len() {
        return false;
    }
    let mut i: usize = 0;
    while i < prefix.len()
        invariant
            i <= prefix@.len() <= a@.len(),
            forall|k: int| 0 <= k < i ==> a@[k] == prefix@[k],
        decreases prefix@.len() - i,
    {
        if a[i] != prefix[i] {
            assert(a@.subrange(0, prefix@.len() as int)[i as int] != prefix@[i as int]);
            return false;
        }
        i = i + 1;
    }
    assert(a@.subrange(0, prefix@.len() as int) =~= prefix@);
    true
}

/// Whether the user-supplied args already contain any of the given flags,
/// as `--flag` or `--flag=value`.
pub fn user_has_flag(args: &[String], flags: &[&str]) -> (r: bool)
    ensures
        r == exists|i: int, j: int|
            0 <= i < args@.len() && 0 <= j < flags@.len() && matches_flag(
                #[trigger] args@[i]@,
                #[trigger] flags@[j]@,
            ),
{
    let mut i: usize = 0;
    while i < args.len()
        invariant
            i <= args@.len(),
            forall|k: int, j: int|
                0 <= k < i && 0 <= j < flags@.len() ==> !matches_flag(
                    #[trigger] args@[k]@,
                    #[trigger] flags@[j]@,
                ),
        decreases args@.len() - i,
    {
        let a = args[i].as_str().as_bytes();
        let mut j: usize = 0;
        while j < flags.len()
            invariant
                j <= flags@.len(),
                i < args@.len(),
                a@ == encode_utf8(args@[i as int]@),
                forall|k: int, m: int|
                    0 <= k < i && 0 <= m < flags@.len() ==> !matches_flag(
                        #[trigger] args@[k]@,
                        #[trigger] flags@[m]@,
                    ),
                forall|m: int| 0 <= m < j ==> !matches_flag(args@[i as int]@, #[trigger] flags@[m]@),
            decreases flags@.len() - j,
        {
            let f = flags[j].as_bytes();
            let hit = bytes_eq(a, f) || (bytes_starts_with(a, f) && f.len() < a.len() && a[f.len()]
                == 0x3d);
            if hit {
                assert(matches_flag(args@[i as int]@, flags@[j as int]@));
                return true;
            }
            j = j + 1;
        }
        i = i + 1;
    }
    false
}

/// The args without any exact occurrence of `flag`, and whether it occurred.
fn split_off_flag(args: &[String], flag: &str) -> (r: (Vec<String>, bool))
    ensures
        r.1 == exists|i: int| 0 <= i < args@.len() && #[trigger] args@[i]@ == flag@,
        r.0@ == args@.filter(|a: String| a@ != flag@),
{
    let ghost pred = |a: String| a@ != flag@;
    let mut present = false;
    let mut filtered: Vec<String> = Vec::new();
    let mut i: usize = 0;
    while i < args.len()
        invariant
            i <= args@.len(),
            pred == (|a: String| a@ != flag@),
            present == exists|k: int| 0 <= k < i && #[trigger] args@[k]@ == flag@,
            filtered@ == args@.take(i as int).filter(pred),
        decreases args@.len() - i,
    {
        let a = &args[i];
        proof {
            assert(args@.take(i as int + 1) =~= args@.take(i as int).push(args@[i as int]));
            args@.take(i as int).lemma_filter_push(args@[i as int], pred);
        }
        if str_eq(a.as_str(), flag) {
            present = true;
        } else {
            filtered.push(a.clone());
        }
        i = i + 1;
    }
    assert(args@.take(args@.len() as int) =~= args@);
    (filtered, present)
}

/// Remove every `--show-stats` from the args; report whether there was one.
pub fn extract_show_stats(args: &[String]) -> (r: (Vec<String>, bool))
    ensures
        r.1 == exists|i: int| 0 <= i < args@.len() && #[trigger] args@[i]@ == "--show-stats"@,
        r.0@ == args@.filter(|a: String| a@ != "--show-stats"@),
{
    split_off_flag(args, "--show-stats")
}

/// Remove every `--json` from the args; report whether there was one.
pub fn extract_json_flag(args: &[String]) -> (r: (Vec<String>, bool))
    ensures
        r.1 == exists|i: int| 0 <= i < args@.len() && #[trigger] args@[i]@ == "--json"@,
        r.0@ == args@.filter(|a: String| a@ != "--json"@),
{
    split_off_flag(args, "--json")
}

/// The output format of parsed command results.
#[derive(Debug, Clone, Copy, PartialEq, Eq, Structural)]
pub enum OutputFormat {
    /// Human-readable text (the default).
    Text,
    /// JSON, chosen by `--json`.
    Json,
}

impl Default for OutputFormat {
    fn default() -> (r: Self)
        ensures
            r == OutputFormat::Text,
    {
        OutputFormat::Text
    }
}

/// Remove every `--json` from the args and choose the output format by it.
pub fn extract_output_format(args: &[String]) -> (r: (Vec<String>, OutputFormat))
    ensures
        r.1 == (if exists|i: int| 0 <= i < args@.len() && #[trigger] args@[i]@ == "--json"@ {
            OutputFormat::Json
        } else {
            OutputFormat::Text
        }),
        r.0@ == args@.filter(|a: String| a@ != "--json"@),
{
    let (filtered, is_json) = extract_json_flag(args);
    let fmt = if is_json {
        OutputFormat::Json
    } else {
        OutputFormat::Text
    };
    (filtered, fmt)
}

/// Index of the first `--` separator, if any.
pub open spec fn separator_position(args: Seq<String>) -> Option<int> {
    if exists|p: int| 0 <= p < args.len() && #[trigger] args[p]@ == "--"@ {
        Some(
            choose|p: int|
                0 <= p < args.len() && #[trigger] args[p]@ == "--"@ && forall|q: int|
                    0 <= q < p ==> #[trigger] args[q]@ != "--"@,
        )
    } else {
        None
    }
}

/// Insert `flag` before the first `--` separator, or append it when there is none.
pub fn inject_flag_before_separator(args: &mut Vec<String>, flag: &str)
    ensures
        final(args)@.len() == old(args)@.len() + 1,
        match separator_position(old(args)@) {
            Some(p) => {
                &&& final(args)@[p]@ == flag@
                &&& forall|k: int| 0 <= k < p ==> #[trigger] final(args)@[k] == old(args)@[k]
                &&& forall|k: int|
                    p < k < final(args)@.len() ==> #[trigger] final(args)@[k] == old(args)@[k - 1]
            },
            None => {
                &&& final(args)@[old(args)@.len() as int]@ == flag@
                &&& forall|k: int| 0 <= k < old(args)@.len() ==> #[trigger] final(args)@[k] == old(args)@[k]
            },
        },
{
    let mut pos: usize = 0;
    while pos < args.len()
        invariant
            pos <= args@.len(),
            forall|q: int| 0 <= q < pos ==> #[trigger] args@[q]@ != "--"@,
        ensures
            pos <= args@.len(),
            forall|q: int| 0 <= q < pos ==> #[trigger] args@[q]@ != "--"@,
            pos < args@.len() ==> args@[pos as int]@ == "--"@,
        decreases args@.len() - pos,
    {
        if str_eq(args[pos].as_str(), "--") {
            break;
        }
        pos = pos + 1;
    }
    let ghost before = args@;
    let s = flag.to_owned();
    if pos < args.len() {
        assert(separator_position(before) == Some(pos as int)) by {
            assert(before[pos as int]@ == "--"@);
            let c = choose|p: int|
                0 <= p < before.len() && #[trigger] before[p]@ == "--"@ && forall|q: int|
                    0 <= q < p ==> #[trigger] before[q]@ != "--"@;
            assert(before[c]@ == "--"@);
            if c < pos {
                assert(before[c]@ != "--"@);
            } else if c > pos {
                assert(before[pos as int]@ != "--"@);
            }
        }
        args.insert(pos, s);
    } else {
        args.push(s);
    }
}

/// The combined output of a command: stdout alone when stderr is empty,
/// else stdout, a line feed and stderr.
pub fn combine_output(stdout: &str, stderr: &str) -> (r: String)
    ensures
        stderr@.len() == 0 ==> r@ == stdout@,
        stderr@.len() > 0 ==> r@ == stdout@ + seq!['\n'] + stderr@,
{
    let mut out = stdout.to_owned();
    if stderr.is_empty() {
        return out;
    }
    proof {
        reveal_strlit("\n");
    }
    out.append("\n");
    out.append(stderr);
    out
}

/// The process exit status of a command's exit code: 1 when the command
/// gave none, else the code clamped to `0..=255`.
pub fn exit_status(code: Option<i32>) -> (r: u8)
    ensures
        r == match code {
            None => 1int,
            Some(c) => if c < 0 {
                0int
            } else if c > 255 {
                255int
            } else {
                c as int
            },
        },
{
    let c = match code {
        Some(c) => c,
        None => 1,
    };
    if c < 0 {
        0
    } else if c > 255 {
        255
    } else {
        c as u8
    }
}

} // verus!
