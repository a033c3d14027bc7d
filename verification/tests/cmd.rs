//! Command-line helpers: routing, flag detection, extraction and injection,
//! output combination and the index directory name.

use rskim_search::cmd::search::{get_index_dir, hash_path};
use rskim_search::cmd::{
    combine_output, extract_json_flag, extract_output_format, extract_show_stats,
    inject_flag_before_separator, is_known_subcommand, user_has_flag, OutputFormat,
};
use rskim_search::lexical::fxhash_bytes;

fn strings(v: &[&str]) -> Vec<String> {
    v.iter().map(|s| s.to_string()).collect()
}

#[test]
fn test_extract_json_flag_present() {
    let args: Vec<String> = vec!["--json".into(), "--cached".into()];
    let (filtered, is_json) = extract_json_flag(&args);
    assert!(is_json);
    assert_eq!(filtered, vec!["--cached"]);
}

#[test]
fn test_extract_json_flag_absent() {
    let args: Vec<String> = vec!["--cached".into()];
    let (filtered, is_json) = extract_json_flag(&args);
    assert!(!is_json);
    assert_eq!(filtered, vec!["--cached"]);
}

#[test]
fn known_subcommands_are_recognized_exactly() {
    for name in [
        "agents", "build", "completions", "discover", "git", "init", "learn", "lint", "pkg",
        "rewrite", "search", "stats", "test",
    ] {
        assert!(is_known_subcommand(name), "{name} should be known");
    }
    assert!(!is_known_subcommand("searc"));
    assert!(!is_known_subcommand("Search"));
    assert!(!is_known_subcommand(""));
    assert!(!is_known_subcommand("file.rs"));
}

#[test]
fn user_flag_matches_exact_and_equals_forms() {
    let args = strings(&["--color=always", "src"]);
    assert!(user_has_flag(&args, &["--color", "-c"]));
    assert!(!user_has_flag(&args, &["--col"]));
    assert!(!user_has_flag(&strings(&["--colorful"]), &["--color"]));
    assert!(user_has_flag(&strings(&["-c"]), &["--color", "-c"]));
    assert!(!user_has_flag(&[], &["--color"]));
}

#[test]
fn show_stats_is_removed_everywhere() {
    let args = strings(&["--show-stats", "a", "--show-stats", "b"]);
    let (filtered, present) = extract_show_stats(&args);
    assert!(present);
    assert_eq!(filtered, vec!["a", "b"]);
    let (filtered, present) = extract_show_stats(&strings(&["a"]));
    assert!(!present);
    assert_eq!(filtered, vec!["a"]);
}

#[test]
fn output_format_follows_json_flag() {
    let (filtered, fmt) = extract_output_format(&strings(&["x", "--json"]));
    assert_eq!(fmt, OutputFormat::Json);
    assert_eq!(filtered, vec!["x"]);
    let (_, fmt) = extract_output_format(&strings(&["x"]));
    assert_eq!(fmt, OutputFormat::Text);
    assert_eq!(OutputFormat::default(), OutputFormat::Text);
}

#[test]
fn flag_is_injected_before_the_separator() {
    let mut args = strings(&["test", "--", "--nocapture"]);
    inject_flag_before_separator(&mut args, "--message-format=json");
    assert_eq!(args, vec!["test", "--message-format=json", "--", "--nocapture"]);
}

#[test]
fn flag_is_injected_before_the_first_separator_only() {
    let mut args = strings(&["a", "--", "b", "--"]);
    inject_flag_before_separator(&mut args, "-q");
    assert_eq!(args, vec!["a", "-q", "--", "b", "--"]);
}

#[test]
fn flag_is_appended_without_separator() {
    let mut args = strings(&["build", "--release"]);
    inject_flag_before_separator(&mut args, "--json");
    assert_eq!(args, vec!["build", "--release", "--json"]);
    let mut empty: Vec<String> = Vec::new();
    inject_flag_before_separator(&mut empty, "--json");
    assert_eq!(empty, vec!["--json"]);
}

#[test]
fn combined_output_joins_with_a_line_feed() {
    assert_eq!(combine_output("out", ""), "out");
    assert_eq!(combine_output("out", "err"), "out\nerr");
    assert_eq!(combine_output("", "err"), "\nerr");
}

#[test]
fn hash_path_is_sixteen_hex_digits_of_the_hash() {
    let h = hash_path("/home/user/project");
    assert_eq!(h, format!("{:016x}", fxhash_bytes(b"/home/user/project")));
    assert_eq!(h.len(), 16);
    assert_eq!(hash_path(""), "0000000000000000");
    assert_eq!(hash_path("a"), format!("{:016x}", 0x61u64.wrapping_mul(0x517c_c1b7_2722_0a95)));
}

#[test]
fn index_dir_is_under_search_in_the_cache_root() {
    let hash = hash_path("/repo");
    assert_eq!(get_index_dir("/cache/skim", "/repo"), format!("/cache/skim/search/{hash}"));
    assert_eq!(get_index_dir("/cache/skim/", "/repo"), format!("/cache/skim/search/{hash}"));
    assert_eq!(get_index_dir("", "/repo"), format!("search/{hash}"));
}

use rskim_search::cmd::exit_status;
use rskim_search::cmd::search::{
    has_help_flag, parse_limit, parse_usize, search_first_step, search_next_step, SearchOptions,
    SearchStep, Unimplemented,
};

fn options(query: Option<&str>) -> SearchOptions {
    SearchOptions {
        json: false,
        build: false,
        rebuild: false,
        update: false,
        ast: false,
        blast_radius: false,
        hot: false,
        cold: false,
        risky: false,
        stats: false,
        clear_cache: false,
        limit: 50,
        query: query.map(|q| q.to_string()),
    }
}

#[test]
fn limits_parse_like_str_parse() {
    assert_eq!(parse_usize("10"), Some(10));
    assert_eq!(parse_usize("+7"), Some(7));
    assert_eq!(parse_usize("007"), Some(7));
    assert_eq!(parse_usize(""), None);
    assert_eq!(parse_usize("+"), None);
    assert_eq!(parse_usize("-1"), None);
    assert_eq!(parse_usize("1x"), None);
    assert_eq!(parse_usize(" 1"), None);
    assert_eq!(parse_usize(&usize::MAX.to_string()), Some(usize::MAX));
    assert_eq!(parse_usize("99999999999999999999999"), None);
    for s in ["0", "42", "+3", "x", "", "18446744073709551616"] {
        assert_eq!(parse_usize(s), s.parse::<usize>().ok(), "{s:?}");
    }
}

#[test]
fn limit_defaults_to_fifty() {
    assert_eq!(parse_limit(None), 50);
    assert_eq!(parse_limit(Some("abc")), 50);
    assert_eq!(parse_limit(Some("5")), 5);
    assert_eq!(parse_limit(Some("0")), 0);
}

#[test]
fn help_flag_is_found_anywhere() {
    assert!(has_help_flag(&strings(&["foo", "-h"])));
    assert!(has_help_flag(&strings(&["--help"])));
    assert!(!has_help_flag(&strings(&["--helpme", "h"])));
}

#[test]
fn first_step_prefers_help_then_unimplemented_flags_in_order() {
    let mut o = options(Some("q"));
    assert_eq!(search_first_step(true, &o), SearchStep::PrintHelp);
    o.hot = true;
    o.ast = true;
    assert_eq!(search_first_step(false, &o), SearchStep::RejectUnimplemented(Unimplemented::Ast));
    o.update = true;
    assert_eq!(
        search_first_step(false, &o),
        SearchStep::RejectUnimplemented(Unimplemented::Update)
    );
    assert_eq!(search_first_step(false, &options(None)), SearchStep::ResolveRepo);
}

#[test]
fn next_step_orders_cache_stats_build_and_query() {
    let mut o = options(Some("q"));
    o.clear_cache = true;
    o.stats = true;
    assert_eq!(search_next_step(&o, true, false), SearchStep::ClearCache);
    o.clear_cache = false;
    assert_eq!(search_next_step(&o, true, false), SearchStep::ShowStats);
    assert_eq!(search_next_step(&o, false, false), SearchStep::MissingIndex);
    o.stats = false;
    o.rebuild = true;
    assert_eq!(search_next_step(&o, true, false), SearchStep::Build { remove_old: true });
    assert_eq!(search_next_step(&o, true, true), SearchStep::Search);
}

#[test]
fn next_step_without_query() {
    let mut o = options(None);
    assert_eq!(search_next_step(&o, true, false), SearchStep::Usage);
    o.build = true;
    assert_eq!(search_next_step(&o, true, false), SearchStep::Build { remove_old: false });
    assert_eq!(search_next_step(&o, true, true), SearchStep::FinishAfterBuild);
    let mut e = options(Some(""));
    assert_eq!(search_next_step(&e, true, false), SearchStep::Usage);
    e.build = true;
    assert_eq!(search_next_step(&e, true, true), SearchStep::FailWithoutQuery);
}

#[test]
fn next_step_builds_a_missing_index_before_searching() {
    let o = options(Some("query"));
    assert_eq!(search_next_step(&o, false, false), SearchStep::AutoBuild);
    assert_eq!(search_next_step(&o, true, false), SearchStep::Search);
}

#[test]
fn exit_status_clamps_and_defaults_to_one() {
    assert_eq!(exit_status(None), 1);
    assert_eq!(exit_status(Some(0)), 0);
    assert_eq!(exit_status(Some(3)), 3);
    assert_eq!(exit_status(Some(-5)), 0);
    assert_eq!(exit_status(Some(1000)), 255);
}
