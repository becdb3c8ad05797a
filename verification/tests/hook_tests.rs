use agpeer::common::HookSearchSite;
use agpeer::hook::adapter::{build_command, display_name, parse_output, budget};
use agpeer::hook::builtin::{
    detail_candidates, extract_regex, magnet_key, note_hits, note_page_hits, percent_decode, percent_encode, scan_anchors,
    site_search_url, uddg_scan_ok, uddg_targets, SearchHit,
};

const MAGNET_A: &str = "magnet:?xt=urn:btih:aaaaaaaaaaaaaaaaaaaaaaaaaaaaaaaaaaaaaaaa";
const MAGNET_B: &str = "magnet:?xt=urn:btih:bbbbbbbbbbbbbbbbbbbbbbbbbbbbbbbbbbbbbbbb";
const MAGNET_A_HASH_UPPER: &str = "AAAAAAAAAAAAAAAAAAAAAAAAAAAAAAAAAAAAAAAA";

fn generic_extract(html: &str) -> Vec<SearchHit> {
    let mut seen = Vec::new();
    let mut out = Vec::new();
    note_hits(html, &mut seen, &mut out);
    out
}

#[test]
fn raw_magnet_scan_finds_tokens_in_attributes_and_text() {
    let html = format!("<a href=\"{MAGNET_A}&dn=Foo\">Foo</a> plain text {MAGNET_B}");
    let out = generic_extract(&html);
    let magnets: Vec<String> = out.iter().map(|h| h.magnet.clone()).collect();
    assert!(magnets.contains(&format!("{MAGNET_A}&dn=Foo")));
    assert!(magnets.contains(&MAGNET_B.to_string()));
    assert_eq!(out.len(), 2);
}

#[test]
fn anchor_title_becomes_hit_title() {
    let html = format!("<a href=\"{MAGNET_A}\">My &amp; File</a>");
    let hits = generic_extract(&html);
    assert_eq!(hits.len(), 1);
    assert_eq!(hits[0].title.as_deref(), Some("My & File"));
    assert_eq!(hits[0].magnet, MAGNET_A);
}

#[test]
fn uddg_redirect_targets_are_decoded() {
    let encoded = percent_encode(MAGNET_A);
    let html = format!("<a rel=\"nofollow\" href=\"//duckduckgo.com/l/?uddg={encoded}&rut=abc\">x</a>");
    let hits = generic_extract(&html);
    assert_eq!(hits.len(), 1);
    assert_eq!(hits[0].magnet, MAGNET_A);
}

#[test]
fn percent_encoding_roundtrips_in_search() {
    let original = MAGNET_A;
    assert_eq!(percent_decode(&percent_encode(original)), original);
    assert_eq!(percent_decode("a%20b%2Fc"), "a b/c");
}

#[test]
fn detail_candidates_skip_magnets_and_anchors() {
    let html = format!(
        "<a href=\"{MAGNET_A}\">direct</a><a href=\"/view/1\">one</a><a href=\"#section\">in-page</a><a href=\"javascript:void(0)\">js</a><a href=\"https://nyaa.example/view/2\">two</a>"
    );
    let candidates = detail_candidates(&html, "https://nyaa.example/?q=x", 10);
    let urls: Vec<String> = candidates.iter().map(|(u, _)| u.clone()).collect();
    assert_eq!(urls, vec!["https://nyaa.example/view/1".to_string(), "https://nyaa.example/view/2".to_string()]);
}

#[test]
fn detail_candidates_reject_cross_origin_and_protocol_relative_links() {
    let base = "https://index.example/search?q=x";
    let html = "<a href=\"/ok\">ok</a><a href=\"https://other.example/x\">other</a><a href=\"//other.example/y\">proto-relative</a><a href=\"http://169.254.169.254/latest/meta-data\">metadata</a>";
    let candidates = detail_candidates(html, base, 10);
    assert_eq!(candidates.len(), 1);
    assert_eq!(candidates[0].0, "https://index.example/ok");
}

#[test]
fn regex_strategy_extracts_group_1_and_matches() {
    let html = format!("<x>{MAGNET_A}</x> <y>{MAGNET_B}</y>");
    let magnets = extract_regex(&html, r#"magnet:\?xt=urn:btih:[a-f0-9]+"#).unwrap();
    assert_eq!(magnets, vec![MAGNET_A.to_string(), MAGNET_B.to_string()]);
    let grouped = extract_regex(&html, r#"<x>(magnet:[^<]+)</x>"#).unwrap();
    assert_eq!(grouped, vec![MAGNET_A.to_string()]);
}

#[test]
fn invalid_regex_is_a_typed_error() {
    let err = extract_regex("<html/>", "(unclosed").unwrap_err();
    assert!(matches!(err, agpeer::common::Error::Backend(_)));
}

#[test]
fn site_template_requires_query_token() {
    let site = HookSearchSite { domain: "example".into(), search: "https://example.example/search".into(), ..Default::default() };
    let err = site_search_url(&site, "q").unwrap_err();
    assert!(err.to_string().contains("{query}"));
}

#[test]
fn site_template_fills_query() {
    let site = HookSearchSite { domain: "example".into(), search: " https://example.example/?q={query} ".into(), ..Default::default() };
    assert_eq!(site_search_url(&site, "a b").unwrap(), "https://example.example/?q=a%20b");
}

#[test]
fn scan_anchors_handles_single_and_double_quotes() {
    let html = "<a href=\"/x\">one</a><a href='/y'>two</a>";
    let anchors = scan_anchors(html);
    assert_eq!(anchors.len(), 2);
    assert_eq!(anchors[0].href, "/x");
    assert_eq!(anchors[0].text, "one");
    assert_eq!(anchors[1].href, "/y");
    assert_eq!(anchors[1].text, "two");
}

#[test]
fn scan_anchors_skips_non_anchor_tags() {
    let html = "<article>x</article><a href=\"/z\">three</a>";
    let anchors = scan_anchors(html);
    assert_eq!(anchors.len(), 1);
    assert_eq!(anchors[0].href, "/z");
}

#[test]
fn scan_anchors_unescapes_entities() {
    let anchors = scan_anchors("<a href=\"/x\">a &amp; b</a>");
    assert_eq!(anchors[0].text, "a & b");
}

#[test]
fn dedupe_collapses_same_hash_with_different_params_or_case() {
    let upper = format!("magnet:?xt=urn:btih:{}", MAGNET_A_HASH_UPPER);
    let html = format!("<a href=\"{MAGNET_A}&dn=One\">one</a><a href=\"{upper}\">two</a><a href=\"{MAGNET_B}\">three</a>");
    let hits = generic_extract(&html);
    assert_eq!(hits.len(), 2);
}

#[test]
fn magnet_key_extracts_lowercased_btih() {
    assert_eq!(magnet_key("magnet:?xt=urn:btih:ABCDEF&dn=x"), "abcdef");
    assert_eq!(magnet_key(MAGNET_A), "a".repeat(40));
}

#[test]
fn uddg_values_are_collected_in_order() {
    assert_eq!(uddg_targets("x?uddg=a%20b&y=1 uddg=c"), vec!["a b".to_string(), "c".to_string()]);
}

#[test]
fn parses_json_hits() {
    let hits = vec![SearchHit {
        magnet: "magnet:?xt=urn:btih:aaaaaaaaaaaaaaaaaaaaaaaaaaaaaaaaaaaaaaaa".into(),
        title: Some("Album/flac".into()),
        size: Some(1000),
        seeders: Some(123),
        leechers: Some(5),
    }];
    let out = parse_output("[...]", Some(hits), 100);
    assert_eq!(out.len(), 1);
    assert_eq!(out[0].filename, "Album/flac");
    assert_eq!(out[0].size, Some(1000));
    assert_eq!(out[0].magnet, "magnet:?xt=urn:btih:aaaaaaaaaaaaaaaaaaaaaaaaaaaaaaaaaaaaaaaa");
    assert_eq!(out[0].seeders, Some(123));
    assert_eq!(out[0].leechers, Some(5));
}

#[test]
fn parses_plain_lines_and_dedups() {
    let out = parse_output(
        "magnet:?xt=urn:btih:aaaaaaaaaaaaaaaaaaaaaaaaaaaaaaaaaaaaaaaa\nmagnet:?xt=urn:btih:aaaaaaaaaaaaaaaaaaaaaaaaaaaaaaaaaaaaaaaa\nmagnet:?xt=urn:btih:bbbbbbbbbbbbbbbbbbbbbbbbbbbbbbbbbbbbbbbb\n",
        None,
        100,
    );
    assert_eq!(out.len(), 2);
}

#[test]
fn title_prefix_parsed() {
    let out = parse_output("Some Title | magnet:?xt=urn:btih:aaaaaaaaaaaaaaaaaaaaaaaaaaaaaaaaaaaaaaaa\n", None, 100);
    assert_eq!(out.len(), 1);
    assert_eq!(out[0].filename, "Some Title");
}

#[test]
fn display_name_from_dn() {
    assert_eq!(display_name("magnet:?xt=urn:btih:aa&dn=My%20File"), "My File");
    assert!(display_name("magnet:?xt=urn:btih:aaaaaaaaaaaaaaaaaaaaaaaaaaaaaaaaaaaaaaaa").starts_with("magnet ("));
}

#[test]
fn empty_and_comment_lines_ignored() {
    let out = parse_output("\n# comment\nmagnet:?xt=urn:btih:aaaaaaaaaaaaaaaaaaaaaaaaaaaaaaaaaaaaaaaa\n", None, 100);
    assert_eq!(out.len(), 1);
}

#[test]
fn respects_max_results() {
    let out = parse_output("magnet:?xt=urn:btih:a\nmagnet:?xt=urn:btih:b\nmagnet:?xt=urn:btih:c\n", None, 2);
    assert_eq!(out.len(), 2);
}

#[test]
fn build_command_substitutes_query_and_appends_when_missing() {
    let (prog, args) = build_command(&vec!["scraper".into(), "--q".into(), "{query}".into()], "hello world", &vec![]).unwrap();
    assert_eq!(prog, "scraper");
    assert_eq!(args, vec!["--q", "hello world"]);
    let (_, args2) = build_command(&vec!["scraper".into()], "term", &vec![]).unwrap();
    assert_eq!(args2, vec!["term"]);
}

#[test]
fn build_command_handles_domains() {
    let domains = vec!["search-index-1.example".to_string(), "search-index-2.example".to_string()];
    let (_, args) = build_command(
        &vec!["s".into(), "{query}".into(), "--domains".into(), "{domains}".into()],
        "q",
        &domains,
    )
    .unwrap();
    assert_eq!(args, vec!["q", "--domains", "search-index-1.example,search-index-2.example"]);
    let (_, args2) = build_command(&vec!["s".into(), "{query}".into()], "q", &domains).unwrap();
    assert_eq!(args2, vec!["q", "search-index-1.example,search-index-2.example"]);
    let (_, args3) = build_command(&vec!["s".into(), "{query}".into()], "q", &vec![]).unwrap();
    assert_eq!(args3, vec!["q"]);
}

#[test]
fn empty_template_builds_no_command() {
    assert!(build_command(&vec![], "q", &vec![]).is_none());
}

#[test]
fn budget_is_bounded_by_backend() {
    assert_eq!(budget(10, 100), 10);
    assert_eq!(budget(0, 100), 1);
    assert_eq!(budget(500, 100), 100);
}

#[test]
fn page_hits_are_noted_when_every_anchor_resolves() {
    let html = format!("<a href=\"{MAGNET_A}\">A</a> {MAGNET_B}");
    let mut seen = Vec::new();
    let mut out = Vec::new();
    assert!(note_page_hits(&html, &mut seen, &mut out));
    assert_eq!(out.len(), 2);
    assert_eq!(out[0].magnet, MAGNET_A);
    assert_eq!(out[0].title.as_deref(), Some("A"));
    assert_eq!(seen.len(), 2);
}

#[test]
fn page_with_a_dangling_redirect_is_refused_unchanged() {
    let html = format!("<a href=\"/l/?uddg=\">x</a> {MAGNET_B}");
    let mut seen = vec!["k".to_string()];
    let mut out = Vec::new();
    assert!(!note_page_hits(&html, &mut seen, &mut out));
    assert!(out.is_empty());
    assert_eq!(seen, vec!["k".to_string()]);
}

#[test]
fn uddg_scan_stays_inside_the_text() {
    assert!(uddg_scan_ok("x?uddg=a%20b&y=1 uddg=c"));
    assert!(uddg_scan_ok("no redirect"));
    assert!(uddg_scan_ok("uddg=xuddg="));
    assert!(!uddg_scan_ok("/l/?uddg="));
}
