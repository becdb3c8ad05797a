use agpeer::debug::inputs::{
    DebugError, FilesInput, GitDiffInput, GitLogInput, GrepInput, LogSearchInput, LogTailInput,
    ReadInput, SymbolInput,
};
use agpeer::debug::listing::{code_files, code_symbol};
use agpeer::debug::logs::{log_files, LogCandidate};
use agpeer::debug::report::{
    code_read, git_diff_args, git_log_args, git_status_report, log_tail, runtime_info, FileLines,
};
use agpeer::debug::search::{code_grep, log_search};

fn file(label: &str, lines: &[&str]) -> FileLines {
    FileLines { label: label.to_string(), lines: lines.iter().map(|s| s.to_string()).collect() }
}

fn candidate(name: &str, is_file: bool, modified: i128) -> LogCandidate {
    LogCandidate { name: name.to_string(), is_file, modified }
}

#[test]
fn log_files_lists_newest_first() {
    let cs = vec![
        candidate("agpeer.log.2026-08-18", true, 100),
        candidate("agpeer.log.2026-08-19", true, 200),
        candidate("unrelated.txt", true, 300),
    ];
    let files = log_files(&cs);
    assert_eq!(files.len(), 2);
    assert!(cs[files[0]].name.contains("2026-08-19"));
    assert_eq!(files, vec![1, 0]);
}

#[test]
fn log_files_orders_ties_by_later_listing_first() {
    let cs = vec![
        candidate("agpeer.a", true, 5),
        candidate("agpeer-dir", false, 9),
        candidate("agpeer.b", true, 5),
        candidate("agpeer.c", true, 7),
    ];
    assert_eq!(log_files(&cs), vec![3, 2, 0]);
}

#[test]
fn log_tail_filters_by_text_and_level() {
    let f = file("agpeer.log", &["a INFO x", "b ERROR y", "c error z"]);
    let p = LogTailInput { lines: None, contains: Some("ERR".to_string()), level: Some("error".to_string()) };
    assert_eq!(log_tail(&p, Some(&f)), "# agpeer.log (3 lines)\nb ERROR y\n-- 1 matching lines (capped)\n");
}

#[test]
fn log_tail_without_files_says_so() {
    let p = LogTailInput { lines: None, contains: None, level: None };
    assert_eq!(log_tail(&p, None), "no agpeer log files found");
}

#[test]
fn log_tail_inspects_the_last_lines_only() {
    let lines: Vec<String> = (0..10).map(|i| format!("l{i}")).collect();
    let f = FileLines { label: "agpeer.log".to_string(), lines };
    let p = LogTailInput { lines: Some(3), contains: None, level: None };
    assert_eq!(log_tail(&p, Some(&f)), "# agpeer.log (10 lines)\nl7\nl8\nl9\n-- 3 matching lines (capped)\n");
}

#[test]
fn log_search_shows_context_and_counts_one_past_the_limit() {
    let files = vec![file("agpeer.log", &["start", "Error one", "ok", "error two"])];
    let p = LogSearchInput {
        pattern: "ERROR".to_string(),
        context: Some(1),
        limit: Some(1),
        contains: None,
    };
    let out = log_search(&p, &files, 2).ok().unwrap();
    assert_eq!(out, "== agpeer.log:1 ==\n 1: start\n>2: Error one\n 3: ok\n-- 2 matches across 2 file(s), 1 shown\n");
}

#[test]
fn log_search_rejects_an_invalid_regex() {
    let p = LogSearchInput { pattern: "\u{28}".to_string(), context: None, limit: None, contains: None };
    match log_search(&p, &vec![], 0) {
        Err(DebugError::Regex { pat, .. }) => assert_eq!(pat, "\u{28}"),
        _ => panic!("expected a regex error"),
    }
}

#[test]
fn code_grep_honours_the_file_pattern() {
    let files = vec![
        file("src/a.rs", &["fn main() {}", "let x = 1;"]),
        file("docs/b.md", &["fn in docs"]),
    ];
    let p = GrepInput {
        pattern: "fn".to_string(),
        file_pattern: Some("\\.rs$".to_string()),
        context: None,
        limit: None,
        case_insensitive: false,
    };
    assert_eq!(code_grep(&p, &files).ok().unwrap(), "== src/a.rs:0 ==\n>1: fn main() {}\n-- 1 total matches, 1 shown\n");
}

#[test]
fn code_grep_stops_past_the_limit() {
    let files = vec![file("src/a.rs", &["fn a", "fn b"])];
    let p = GrepInput { pattern: "fn".to_string(), file_pattern: None, context: None, limit: Some(1), case_insensitive: false };
    assert_eq!(code_grep(&p, &files).ok().unwrap(), "== src/a.rs:0 ==\n>1: fn a\n-- stopped at 2 total matches\n");
}

#[test]
fn code_grep_reports_a_bad_file_pattern() {
    let p = GrepInput { pattern: "x".to_string(), file_pattern: Some("\u{5b}".to_string()), context: None, limit: None, case_insensitive: true };
    match code_grep(&p, &vec![]) {
        Err(DebugError::Regex { pat, .. }) => assert_eq!(pat, "\u{5b}"),
        _ => panic!("expected a regex error"),
    }
}

#[test]
fn code_read_numbers_a_line_range() {
    let lines: Vec<String> = ["a", "b", "c", "d"].iter().map(|s| s.to_string()).collect();
    let p = ReadInput { path: "f.rs".to_string(), start: Some(2), lines: Some(2) };
    assert_eq!(code_read(&p, "f.rs", &lines), "# f.rs\n2: b\n3: c\n");
    let all = ReadInput { path: "f.rs".to_string(), start: None, lines: None };
    assert_eq!(code_read(&all, "f.rs", &lines), "# f.rs\n1: a\n2: b\n3: c\n4: d\n");
}

#[test]
fn code_files_filters_and_caps_by_lines() {
    let paths: Vec<String> = ["src/a.rs", "src/b.rs", "README.md"].iter().map(|s| s.to_string()).collect();
    let p = FilesInput { pattern: Some("\\.rs$".to_string()), limit: None };
    assert_eq!(code_files(&p, &paths).ok().unwrap(), "src/a.rs\nsrc/b.rs\n-- 3 files indexed, 1 listed\n");
    let one = FilesInput { pattern: None, limit: Some(1) };
    assert_eq!(code_files(&one, &paths).ok().unwrap(), "src/a.rs\n-- 2 files indexed, 0 listed\n");
}

#[test]
fn code_symbol_finds_definitions_with_context() {
    let files = vec![
        file("src/lib.rs", &["use x;", "pub fn parse_url(s: &str) {", "}", "fn other() {}"]),
        file("web/app.js", &["function parse_url() {}"]),
    ];
    let p = SymbolInput { name: " parse_url ".to_string(), lang: Some("RS".to_string()), limit: None };
    assert_eq!(
        code_symbol(&p, &files).ok().unwrap(),
        "== src/lib.rs:2 ==\n    1: use x;\n    2: pub fn parse_url(s: &str) {\n    3: }\n    4: fn other() {}\n-- 1 definition sites (capped)\n"
    );
}

#[test]
fn code_symbol_needs_a_name() {
    let p = SymbolInput { name: "  ".to_string(), lang: None, limit: None };
    match code_symbol(&p, &vec![]) {
        Err(DebugError::Other(m)) => assert_eq!(m, "symbol name is required"),
        _ => panic!("expected a missing-name error"),
    }
}

#[test]
fn runtime_info_reports_roots_and_latest_log() {
    assert_eq!(
        runtime_info("/r", "/l", Some(("/l/agpeer.log", 42))),
        "root:     /r\nlog_dir:  /l\nlog_rotation: 2000 lines/file, 20 files retained\nlatest_log: /l/agpeer.log (42 bytes)\n"
    );
    assert!(runtime_info("/r", "/l", None).ends_with("latest_log: (none found)\n"));
}

#[test]
fn git_arguments_follow_the_inputs() {
    assert_eq!(git_log_args(&GitLogInput { limit: None }), vec!["log", "--oneline", "-20"]);
    assert_eq!(git_log_args(&GitLogInput { limit: Some(500) }), vec!["log", "--oneline", "-100"]);
    assert_eq!(git_diff_args(&GitDiffInput { path: None, full: false }), vec!["diff", "--stat"]);
    assert_eq!(git_diff_args(&GitDiffInput { path: None, full: true }), vec!["diff"]);
    assert_eq!(git_diff_args(&GitDiffInput { path: Some("src".to_string()), full: false }), vec!["diff", "--", "src"]);
}

#[test]
fn git_status_counts_short_status_lines() {
    assert_eq!(
        git_status_report("main\n", "abc fix\n", " M a.rs\n?? b.rs"),
        "branch: main\n\nlast:   abc fix\n\n--- status --short (2) ---\n M a.rs\n?? b.rs"
    );
}

#[test]
fn debug_errors_read_as_messages() {
    let e = DebugError::Regex { pat: "\u{28}".to_string(), msg: "unclosed".to_string() };
    assert_eq!(e.to_string(), "invalid regex `\u{28}`: unclosed");
    let io = DebugError::Io { path: "/x".to_string(), source: "denied".to_string() };
    assert_eq!(io.to_string(), "io error on /x: denied");
}
