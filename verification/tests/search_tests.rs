use agpeer::common::{default_max_results, Error, ExtractStrategy, HookSearchSite, PostprocessState, SearchState};
use agpeer::completion::transfer_key;
use agpeer::hook::adapter::{merge_hits, output_text, results_from_hits, seen_magnets, wants_json};
use agpeer::hook::builtin::{
    attr_value, detail_hit, detail_page_limit, engine_urls, generic_keywords, html_unescape, regex_site_hits,
    SearchHit,
};
use agpeer::ids::TransferId;
use agpeer::postprocess::extract::SevenZipExtractor;
use agpeer::storage::{parse_postprocess, parse_search_state};

const MAGNET_A: &str = "magnet:?xt=urn:btih:aaaaaaaaaaaaaaaaaaaaaaaaaaaaaaaaaaaaaaaa";
const MAGNET_B: &str = "magnet:?xt=urn:btih:bbbbbbbbbbbbbbbbbbbbbbbbbbbbbbbbbbbbbbbb";

fn hit(magnet: &str, title: Option<&str>) -> SearchHit {
    SearchHit { magnet: magnet.to_string(), title: title.map(|t| t.to_string()), size: None, seeders: None, leechers: None }
}

fn site(pattern: Option<&str>, max_pages: Option<usize>) -> HookSearchSite {
    HookSearchSite {
        domain: "example".to_string(),
        search: "https://example.org/?q={query}".to_string(),
        extract: ExtractStrategy::Regex,
        max_pages,
        pattern: pattern.map(|p| p.to_string()),
    }
}

#[test]
fn keywords_without_domains_append_magnet_prefix() {
    assert_eq!(generic_keywords("ubuntu iso", &Vec::new()), "ubuntu iso magnet:?xt=urn:btih:");
}

#[test]
fn keywords_scope_each_domain_with_site() {
    let d = vec!["a.org".to_string(), "b.net".to_string()];
    assert_eq!(generic_keywords("q", &d), "site:a.org site:b.net q magnet:?xt=urn:btih:");
}

#[test]
fn engine_urls_are_form_encoded_in_engine_order() {
    let urls = engine_urls("a b:?");
    assert_eq!(
        urls,
        vec![
            "https://html.duckduckgo.com/html/?q=a+b%3A%3F".to_string(),
            "https://lite.duckduckgo.com/lite/?q=a+b%3A%3F".to_string(),
            "https://www.bing.com/search?q=a+b%3A%3F".to_string(),
        ]
    );
}

#[test]
fn detail_page_limit_defaults_to_five_and_is_clamped() {
    assert_eq!(detail_page_limit(&site(None, None)), 5);
    assert_eq!(detail_page_limit(&site(None, Some(0))), 1);
    assert_eq!(detail_page_limit(&site(None, Some(7))), 7);
    assert_eq!(detail_page_limit(&site(None, Some(50))), 10);
}

#[test]
fn html_unescape_replaces_known_entities() {
    assert_eq!(html_unescape("a&amp;b &lt;c&gt; &quot;d&quot; &#039;e&apos; &#x27;"), "a&b <c> \"d\" 'e' '");
    assert_eq!(html_unescape("&unknown;"), "&unknown;");
}

#[test]
fn attr_value_reads_quoted_attributes() {
    assert_eq!(attr_value("<a href=\"x.html\" title='T'>", "href"), Some("x.html".to_string()));
    assert_eq!(attr_value("<a href=\"x.html\" title='T'>", "title"), Some("T".to_string()));
    assert_eq!(attr_value("<a class=\"c\">", "href"), None);
}

#[test]
fn detail_hit_takes_first_magnet_titled_by_link_text() {
    let page = format!("<p>{MAGNET_A}</p><p>{MAGNET_B}</p>");
    let mut seen = Vec::new();
    let mut out = Vec::new();
    detail_hit(&page, "  Some Title  ", &mut seen, &mut out);
    assert_eq!(out.len(), 1);
    assert_eq!(out[0].magnet, MAGNET_A);
    assert_eq!(out[0].title.as_deref(), Some("Some Title"));
    detail_hit(&page, "Again", &mut seen, &mut out);
    assert_eq!(out.len(), 1);
}

#[test]
fn detail_hit_without_magnet_adds_nothing() {
    let mut seen = Vec::new();
    let mut out = Vec::new();
    detail_hit("<p>nothing here</p>", "t", &mut seen, &mut out);
    assert!(out.is_empty());
    assert!(seen.is_empty());
}

#[test]
fn regex_site_without_pattern_is_backend_error() {
    let mut seen = Vec::new();
    let mut out = Vec::new();
    match regex_site_hits("page", &site(None, None), &mut seen, &mut out) {
        Err(Error::Backend(m)) => {
            assert_eq!(m, "hook_search.sites entry 'example' uses extract = \"regex\" but has no pattern")
        },
        _ => panic!("expected a backend error"),
    }
    assert!(out.is_empty());
}

#[test]
fn regex_site_hits_take_group_one_untitled() {
    let page = format!("<x data=\"{MAGNET_A}\"/><x data=\"{MAGNET_B}\"/>");
    let mut seen = Vec::new();
    let mut out = Vec::new();
    let r = regex_site_hits(&page, &site(Some("data=\"(magnet:[^\"]+)\""), None), &mut seen, &mut out);
    assert!(r.is_ok());
    let magnets: Vec<&str> = out.iter().map(|h| h.magnet.as_str()).collect();
    assert_eq!(magnets, vec![MAGNET_A, MAGNET_B]);
    assert!(out.iter().all(|h| h.title.is_none()));
}

#[test]
fn regex_site_with_invalid_pattern_is_backend_error() {
    let mut seen = Vec::new();
    let mut out = Vec::new();
    let r = regex_site_hits("page", &site(Some("(unclosed"), None), &mut seen, &mut out);
    assert!(matches!(r, Err(Error::Backend(_))));
    assert!(out.is_empty());
}

#[test]
fn wants_json_only_for_leading_bracket() {
    assert!(wants_json("[{\"magnet\":\"x\"}]"));
    assert!(!wants_json(" ["));
    assert!(!wants_json(""));
}

#[test]
fn output_text_is_trimmed_lossy_utf8() {
    assert_eq!(output_text(b"  hello\n"), "hello");
    assert_eq!(output_text(&[b'a', 0xff, b'b']), "a\u{FFFD}b");
}

#[test]
fn seen_magnets_lists_magnets_in_order() {
    let hits = vec![hit(MAGNET_B, None), hit(MAGNET_A, Some("t"))];
    assert_eq!(seen_magnets(&hits), vec![MAGNET_B.to_string(), MAGNET_A.to_string()]);
}

#[test]
fn merge_hits_skips_seen_and_stops_at_budget() {
    let mut hits = vec![hit(MAGNET_A, None)];
    let mut seen = vec![MAGNET_A.to_string()];
    let page = vec![hit(MAGNET_A, Some("dup")), hit(MAGNET_B, Some("b")), hit("magnet:?xt=urn:btih:c", None)];
    merge_hits(&mut hits, &mut seen, page, 2);
    assert_eq!(hits.len(), 2);
    assert_eq!(hits[1].magnet, MAGNET_B);
    assert_eq!(seen, vec![MAGNET_A.to_string(), MAGNET_B.to_string()]);
}

#[test]
fn results_from_hits_drop_blank_magnets_and_keep_titles() {
    let hits = vec![hit("   ", Some("blank")), hit(MAGNET_A, Some("Movie.2020.mkv")), hit(MAGNET_B, None)];
    let r = results_from_hits(&hits);
    assert_eq!(r.len(), 2);
    assert_eq!(r[0].magnet, MAGNET_A);
    assert_eq!(r[0].filename, "Movie.2020.mkv");
    assert_eq!(r[0].extension.as_deref(), Some("mkv"));
    assert_eq!(r[1].magnet, MAGNET_B);
    assert_ne!(r[0].result_id, r[1].result_id);
}

#[test]
fn seven_zip_supports_archive_extensions_case_insensitively() {
    let x = SevenZipExtractor::new();
    assert!(x.supports("/d/a.ZIP"));
    assert!(x.supports("b.tar.gz"));
    assert!(x.supports("c.7z"));
    assert!(!x.supports("d.mkv"));
    assert!(!x.supports("noext"));
}

#[test]
fn transfer_key_is_hyphenated_uuid_text() {
    let id = TransferId(0x0123456789abcdef0123456789abcdef);
    assert_eq!(transfer_key(&id), "01234567-89ab-cdef-0123-456789abcdef");
}

#[test]
fn stored_states_parse_with_defaults() {
    assert_eq!(parse_postprocess("running"), PostprocessState::Running);
    assert_eq!(parse_postprocess("bogus"), PostprocessState::NotRequested);
    assert_eq!(parse_search_state("expired"), SearchState::Expired);
    assert_eq!(parse_search_state("bogus"), SearchState::Pending);
}

#[test]
fn default_max_results_is_one_thousand() {
    assert_eq!(default_max_results(), 1000);
}
