use agpeer::api::{err_to_response, index_html, stored_token, token_script, token_source, TokenSource};
use agpeer::common::{Backend, Error};
use agpeer::config::{HookSearchConfig, SoulseekConfig, TorrentConfig};
use agpeer::events::ProgressThrottle;
use agpeer::ids::new_token;
use agpeer::logrotate::{count_written, rotated_path, rotation_steps, RotateStep};
use agpeer::startup::{engine_config, hook_timeout_secs, settings_to_seed, soulseek_login, wants_rqbit};

#[test]
fn transfer_not_found_maps_to_404() {
    assert_eq!(err_to_response(Error::TransferNotFound).0, 404);
}

#[test]
fn backend_unavailable_maps_to_503() {
    assert_eq!(err_to_response(Error::BackendUnavailable).0, 503);
}

#[test]
fn process_launch_denied_maps_to_403() {
    assert_eq!(err_to_response(Error::ProcessLaunchDenied).0, 403);
}

#[test]
fn error_responses_carry_safe_bodies() {
    let r = err_to_response(Error::Database("secret".to_string()));
    assert_eq!(r.0, 500);
    assert_eq!(r.1.code, "Database");
    assert_eq!(r.1.message, "internal error");
    assert_eq!(err_to_response(Error::InvalidState("busy".to_string())).0, 409);
    assert_eq!(err_to_response(Error::ResultExpired).0, 410);
    assert_eq!(err_to_response(Error::UnsafePath).0, 400);
    assert_eq!(err_to_response(Error::AuthenticationFailed).0, 401);
}

#[test]
fn progress_events_are_throttled_but_others_pass() {
    let mut t = ProgressThrottle::new();
    let mut progress = 0;
    for i in 0..5u64 {
        if t.offer("transfer.progress", 100 + i * 10) {
            progress += 1;
        }
    }
    let mut other = 0;
    if t.offer("transfer.added", 150) {
        other += 1;
    }
    if t.offer("transfer.completed", 151) {
        other += 1;
    }
    assert!(progress < 5, "expected throttled progress, got {progress}");
    assert_eq!(progress, 1);
    assert_eq!(other, 2);
    assert!(t.offer("transfer.progress", 1100));
    assert!(t.offer("search.progress", 1101));
    assert!(!t.offer("transfer.progress", 1200));
}

#[test]
fn line_counts_trigger_rotation_at_the_limit() {
    assert_eq!(count_written(0, b"line\n"), (1, false));
    assert_eq!(count_written(1999, b"a\nb"), (2000, true));
    assert_eq!(count_written(5, b"no newline"), (5, false));
}

#[test]
fn rotation_shifts_existing_files_and_retires_the_active_one() {
    let mut existing = vec![false; 20];
    existing[1] = true;
    existing[2] = true;
    existing[18] = true;
    let steps = rotation_steps(&existing);
    assert_eq!(
        steps,
        vec![
            RotateStep::Remove(19),
            RotateStep::Shift(18),
            RotateStep::Shift(2),
            RotateStep::Shift(1),
            RotateStep::RetireActive,
        ]
    );
    assert_eq!(rotated_path("/logs/agpeer.log", 3), "/logs/agpeer.log.3");
}

#[test]
fn startup_settings_take_precedence_over_config() {
    let c = TorrentConfig::default();
    let e = engine_config(&c, Some(1024), None);
    assert_eq!(e.download_rate_limit, Some(1024));
    assert_eq!(e.upload_rate_limit, c.upload_rate_limit);
    assert_eq!(e.download_root, c.download_root);
    assert!(wants_rqbit("RqBit"));
    assert!(!wants_rqbit("memory"));
}

#[test]
fn soulseek_needs_a_user_name() {
    let mut c = SoulseekConfig::default();
    c.username = None;
    assert!(soulseek_login(&c).is_none());
    c.username = Some(String::new());
    assert!(soulseek_login(&c).is_none());
    c.username = Some("me".to_string());
    c.password = None;
    assert_eq!(soulseek_login(&c), Some(("me".to_string(), String::new())));
}

#[test]
fn hook_timeout_is_at_least_one_second() {
    let mut h = HookSearchConfig::default();
    h.timeout_secs = 0;
    assert_eq!(hook_timeout_secs(&h), 1);
    h.timeout_secs = 30;
    assert_eq!(hook_timeout_secs(&h), 30);
}

#[test]
fn only_missing_search_settings_are_seeded() {
    assert_eq!(settings_to_seed(false, true, false), vec!["hook_search.enabled", "hook_search.sites"]);
    assert!(settings_to_seed(true, true, true).is_empty());
}

#[test]
fn token_sources_follow_precedence() {
    let s = |o: Option<&str>| o.map(|v| v.to_string());
    assert!(matches!(token_source(s(Some("t")), s(Some("/f")), None, None, None), TokenSource::Given(t) if t == "t"));
    assert!(matches!(token_source(None, s(Some("/f")), s(Some("/d")), None, None), TokenSource::File(f) if f == "/f"));
    assert!(matches!(token_source(None, None, s(Some("/d")), s(Some("e")), None), TokenSource::DataDir(d) if d == "/d"));
    assert!(matches!(token_source(None, None, None, s(Some("  ")), s(Some("/ef"))), TokenSource::File(f) if f == "/ef"));
    assert!(matches!(token_source(None, None, None, s(Some("env")), None), TokenSource::Given(t) if t == "env"));
    assert!(matches!(token_source(None, None, None, None, None), TokenSource::Missing));
}

#[test]
fn stored_tokens_are_trimmed_and_never_blank() {
    assert_eq!(stored_token("  abc \n"), Some("abc".to_string()));
    assert_eq!(stored_token(" \n"), None);
    let t = new_token();
    assert_eq!(t.len(), 36);
    assert_ne!(t, new_token());
}

#[test]
fn index_html_injects_the_token_before_the_last_body_end() {
    let page = b"<html><body>x</body><!-- </body> --></html>";
    let plain = index_html(page, "tok", false);
    assert_eq!(plain, page.to_vec());
    let out = String::from_utf8(index_html(page, "tok", true)).unwrap();
    let script = token_script("tok");
    let expected = format!("<html><body>x</body><!-- {}</body> --></html>", script);
    assert_eq!(out, expected);
    let invalid = vec![0xffu8, 0xfe];
    assert_eq!(index_html(&invalid, "tok", true), invalid);
}

fn entry(path: &str, is_dir: bool) -> agpeer::library::LibraryEntry {
    agpeer::library::LibraryEntry {
        path: path.to_string(),
        absolute_path: format!("/lib/{path}"),
        size: if is_dir { None } else { Some(1) },
        is_dir,
    }
}

#[test]
fn library_lists_directories_first_then_by_path() {
    let es = vec![entry("b.mkv", false), entry("A", true), entry("a.mkv", false), entry("Z", true), entry("A/x.mkv", false)];
    assert_eq!(agpeer::library::library_order(&es), vec![1, 3, 4, 2, 0]);
}

#[test]
fn extractor_accepts_valid_token() {
    assert!(agpeer::api::BearerAuth::from_header(Some("Bearer fixed-token"), "fixed-token").is_ok());
}

#[test]
fn extractor_rejects_invalid_token() {
    match agpeer::api::BearerAuth::from_header(Some("Bearer wrong"), "fixed-token") {
        Err(rejection) => {
            let r = rejection.into_response();
            assert_eq!(r.0, 401);
            assert_eq!(r.1.code, "AuthenticationFailed");
        }
        Ok(_) => panic!("a wrong token must be rejected"),
    }
}

#[test]
fn backend_statuses_report_registered_backends() {
    let transfer = vec![Backend::Torrent];
    let search = vec![Backend::Hook];
    let s = agpeer::api::backend_statuses(&transfer, &search, false, false);
    assert_eq!(s.len(), 2);
    assert_eq!(s[0].backend, "hook");
    assert!(!s[0].transfer_available);
    assert!(!s[0].search_available);
    assert_eq!(s[1].backend, "torrent");
    assert!(s[1].transfer_available);
    assert!(!s[1].search_available);
    assert_eq!(s[1].state, "ready");
    let on = agpeer::api::backend_statuses(&transfer, &vec![], true, false);
    assert_eq!(on.len(), 1);
    let listed = agpeer::api::backend_statuses(&vec![Backend::Hook], &vec![], true, true);
    assert!(!listed[0].search_available);
    let status = agpeer::api::backend_statuses(&vec![Backend::Hook], &vec![], true, false);
    assert!(status[0].search_available);
}

#[test]
fn base_url_trailing_slash_normalized() {
    let c = agpeer::client::AgpeerClient::new("http://127.0.0.1:41000/", "t");
    assert_eq!(c.base_url(), "http://127.0.0.1:41000");
    assert_eq!(c.url("/status"), "http://127.0.0.1:41000/api/v1/status");
    assert_eq!(agpeer::client::AgpeerClient::new("http://h//", "t").base_url(), "http://h");
    assert_eq!(agpeer::client::download_result_path("s", "r"), "/searches/s/results/r/download");
}

#[test]
fn registry_lookup_finds_registered_backends() {
    let mut transfers: agpeer::state::BackendRegistry<&str> = agpeer::state::BackendRegistry::new();
    let mut searches: agpeer::state::BackendRegistry<&str> = agpeer::state::BackendRegistry::new();
    transfers.register(Backend::Torrent, "torrent engine");
    searches.register(Backend::Soulseek, "soulseek search");
    assert!(transfers.get(Backend::Torrent).is_some());
    assert!(searches.get(Backend::Soulseek).is_some());
    assert!(transfers.get(Backend::Soulseek).is_none());
    assert!(searches.get(Backend::Torrent).is_none());
    assert!(transfers.all().iter().any(|(b, _)| *b == Backend::Torrent));
    assert!(searches.all().iter().any(|(b, _)| *b == Backend::Soulseek));
}

#[test]
fn registering_again_replaces_the_backend() {
    let mut r: agpeer::state::BackendRegistry<u32> = agpeer::state::BackendRegistry::new();
    r.register(Backend::Torrent, 1);
    r.register(Backend::Hook, 2);
    r.register(Backend::Torrent, 3);
    assert_eq!(r.get(Backend::Torrent), Some(&3));
    assert_eq!(r.get(Backend::Hook), Some(&2));
    assert_eq!(r.backends(), vec![Backend::Torrent, Backend::Hook]);
}

#[test]
fn only_soulseek_connection_settings_trigger_a_reload() {
    assert!(agpeer::state::needs_backend_reload(&vec!["hook_search.enabled".to_string(), "soulseek.password".to_string()]));
    assert!(!agpeer::state::needs_backend_reload(&vec!["hook_search.enabled".to_string(), "soulseek.enabled".to_string()]));
    assert!(!agpeer::state::needs_backend_reload(&Vec::new()));
}
