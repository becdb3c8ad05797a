use agpeer::api::{is_api_miss, mime_for, token_matches, token_script};
use agpeer::common::Backend;
use agpeer::completion::{
    files_to_organize, missing_file_error, move_finished, move_started, new_organize_job, organize_completed,
    organize_next, organize_start, OrganizeAction,
};
use agpeer::common::{Error, TransferFile};
use agpeer::debug::{cap, is_excluded_dir, MAX_CHARS};
use agpeer::events::{available_backends, EventHistory, HISTORY_CAPACITY};
use agpeer::ids::TransferId;
use agpeer::jobs::{JobState, StepState};
use agpeer::secrets::{MemorySecretStore, SecretStore};
use agpeer::storage::{parse_backend, parse_job_state, parse_state, BackendState};

#[test]
fn api_miss_path_matches_exact_api_prefix() {
    assert!(is_api_miss("/api"));
    assert!(is_api_miss("/api/v1"));
    assert!(is_api_miss("/api/v1/nope"));
    assert!(!is_api_miss("/"));
    assert!(!is_api_miss("/assets/app.js"));
}

#[test]
fn mime_mapping_is_stable() {
    assert_eq!(mime_for("index.html"), "text/html; charset=utf-8");
    assert_eq!(mime_for("assets/index-abc123.js"), "text/javascript; charset=utf-8");
    assert_eq!(mime_for("assets/app.css"), "text/css; charset=utf-8");
    assert_eq!(mime_for("favicon.ico"), "image/x-icon");
    assert_eq!(mime_for("data.bin"), "application/octet-stream");
}

#[test]
fn token_script_embeds_json_string_literal() {
    let script = token_script("t\"</script>ok\\n");
    assert!(script.contains(r#""t\"</script>ok\\n""#));
    assert!(script.starts_with("<script>window.__AGPEER_TOKEN__=\""));
    assert!(script.ends_with("\";</script>"));
}

#[test]
fn token_matches_accepts_exact_token() {
    assert!(token_matches(Some("Bearer fixed-token"), "fixed-token"));
    assert!(!token_matches(Some("Bearer other"), "fixed-token"));
}

#[test]
fn token_matches_rejects_missing_and_malformed() {
    assert!(!token_matches(None, "secret"));
    assert!(!token_matches(Some("Basic abc"), "secret"));
    assert!(!token_matches(Some("Bearer"), "secret"));
    assert!(!token_matches(Some("Bearer "), "secret"));
    assert!(!token_matches(Some(""), "secret"));
}

#[test]
fn token_matches_trims_surrounding_whitespace() {
    assert!(token_matches(Some("Bearer secret-token "), "secret-token"));
    assert!(token_matches(Some("Bearer  secret-token"), "secret-token"));
}

#[test]
fn empty_expected_token_never_matches() {
    assert!(!token_matches(Some("Bearer "), ""));
    assert!(!token_matches(Some("abc"), "abc"));
}

#[test]
fn cap_truncates_large_output() {
    let big = "x".repeat(MAX_CHARS + 100);
    let capped = cap(big.clone());
    assert!(capped.contains("truncated"));
    assert!(capped.len() < big.len());
}

#[test]
fn is_excluded_dir_covers_artifacts() {
    assert!(is_excluded_dir("target"));
    assert!(is_excluded_dir(".git"));
    assert!(is_excluded_dir("node_modules"));
    assert!(!is_excluded_dir("src"));
}

#[test]
fn memory_roundtrip_and_delete() {
    let mut store = MemorySecretStore::new();
    assert_eq!(store.get("token").unwrap(), None);
    store.set("token", "s3cr3t").unwrap();
    assert_eq!(store.get("token").unwrap(), Some("s3cr3t".to_string()));
    store.delete("token").unwrap();
    assert_eq!(store.get("token").unwrap(), None);
    store.delete("token").unwrap();
}

#[test]
fn last_call_on_a_key_wins_over_calls_on_others() {
    let mut store = MemorySecretStore::new();
    store.set("user", "alice").unwrap();
    store.set("pass", "one").unwrap();
    store.set("user", "bob").unwrap();
    store.delete("pass").unwrap();
    store.set("other", "x").unwrap();
    store.delete("missing").unwrap();
    assert_eq!(store.get("user").unwrap(), Some("bob".to_string()));
    assert_eq!(store.get("pass").unwrap(), None);
    assert_eq!(store.get("other").unwrap(), Some("x".to_string()));
    assert_eq!(store.get("never").unwrap(), None);
}

#[test]
fn available_backends_dedups_union() {
    let backends = available_backends(&vec![Backend::Torrent, Backend::Soulseek], &vec![Backend::Soulseek]);
    assert_eq!(backends.len(), 2);
    assert_eq!(backends, vec![Backend::Soulseek, Backend::Torrent]);
}

#[test]
fn recent_returns_published_events_oldest_first() {
    let mut h: EventHistory<String> = EventHistory::new();
    h.push("a".to_string());
    h.push("b".to_string());
    let recent = h.recent();
    assert_eq!(recent.len(), 2);
    assert_eq!(recent[0], "a");
    assert_eq!(recent[1], "b");
}

#[test]
fn history_stays_bounded() {
    let mut h: EventHistory<String> = EventHistory::new();
    for i in 0..(HISTORY_CAPACITY + 100) {
        h.push(format!("evt-{i}"));
    }
    let recent = h.recent();
    assert_eq!(recent.len(), HISTORY_CAPACITY);
    assert_eq!(recent[0], format!("evt-{}", 100));
    assert_eq!(recent[HISTORY_CAPACITY - 1], format!("evt-{}", HISTORY_CAPACITY + 99));
}

#[test]
fn stored_names_read_back() {
    assert_eq!(BackendState::parse(BackendState::Degraded.as_str()), BackendState::Degraded);
    assert_eq!(BackendState::parse("bogus"), BackendState::Ready);
    assert_eq!(parse_backend("hook"), Backend::Hook);
    assert_eq!(parse_backend("???"), Backend::Torrent);
    assert_eq!(parse_job_state("cancelled"), JobState::Cancelled);
    assert_eq!(parse_state("orphaned").as_str(), "orphaned");
    assert_eq!(parse_state("nonsense").as_str(), "queued");
}

#[test]
fn organize_job_records_move_outcomes() {
    let mut job = new_organize_job(9, TransferId::new(), "Show.Name.S01E01.mkv", 10);
    assert_eq!(job.state, JobState::Running);
    let files = vec![TransferFile {
        index: "0".into(),
        path: "Show.Name.S01E01.mkv".into(),
        size: 1024,
        selected: true,
        bytes_completed: 1024,
    }];
    let targets = files_to_organize("/downloads", "ignored", &files);
    assert_eq!(targets, vec![("Show.Name.S01E01.mkv".to_string(), "/downloads/Show.Name.S01E01.mkv".to_string())]);
    move_started(&mut job, 11);
    assert_eq!(job.steps[1].state, StepState::Running);
    move_finished(&mut job, "Show.Name.S01E01.mkv", Ok(()), 12).unwrap();
    organize_completed(&mut job, 13);
    assert_eq!(job.state, JobState::Completed);
    assert_eq!(job.steps[0].state, StepState::Completed);

    let mut failing = new_organize_job(10, TransferId::new(), "x", 1);
    move_started(&mut failing, 2);
    let err = move_finished(&mut failing, "x.mkv", Err(Error::UnsafePath), 3).unwrap_err();
    assert_eq!(err.code(), "UnsafePath");
    assert_eq!(failing.state, JobState::Failed);
    assert_eq!(failing.error.as_deref(), Some("x.mkv: unsafe path"));
}

#[test]
fn blank_destination_is_invalid_source() {
    assert!(matches!(agpeer::common::validate_destination("   "), Err(agpeer::common::Error::InvalidSource)));
    assert!(agpeer::common::validate_destination("/downloads").is_ok());
}

#[test]
fn sweep_expires_due_searches_once() {
    let rec = |n: u128, state: agpeer::common::SearchState, at: i64| agpeer::storage::SearchRecord {
        id: agpeer::ids::SearchId(n),
        state,
        expires_at: at,
    };
    let mut table = vec![
        rec(1, agpeer::common::SearchState::Active, 100),
        rec(2, agpeer::common::SearchState::Stopped, 100),
        rec(3, agpeer::common::SearchState::Completed, 500),
        rec(4, agpeer::common::SearchState::Pending, 200),
    ];
    let ids = agpeer::storage::expire_searches(&mut table, 200);
    assert_eq!(ids, vec![agpeer::ids::SearchId(1), agpeer::ids::SearchId(4)]);
    assert_eq!(table[0].state, agpeer::common::SearchState::Expired);
    assert_eq!(table[1].state, agpeer::common::SearchState::Stopped);
    assert_eq!(table[2].state, agpeer::common::SearchState::Completed);
    assert!(agpeer::storage::expire_searches(&mut table, 200).is_empty());
}

#[test]
fn purge_removes_results_whose_time_has_come() {
    let r = |n: u128, at: i64| agpeer::storage::ResultRecord { search_id: agpeer::ids::SearchId(n), expires_at: at };
    let mut table = vec![r(1, 10), r(2, 50), r(1, 20)];
    let ids = agpeer::storage::purge_expired_results(&mut table, 20);
    assert_eq!(ids, vec![agpeer::ids::SearchId(1), agpeer::ids::SearchId(1)]);
    assert_eq!(table.len(), 1);
    assert_eq!(table[0].expires_at, 50);
}

#[test]
fn memory_store_trait_reads_back_writes() {
    use_store(agpeer::secrets::MemorySecretStore::new());
}

fn use_store<S: agpeer::secrets::SecretStore>(mut s: S) {
    s.set("soulseek.password", "pw").unwrap();
    assert_eq!(s.get("soulseek.password").unwrap().as_deref(), Some("pw"));
    s.delete("soulseek.password").unwrap();
    assert_eq!(s.get("soulseek.password").unwrap(), None);
}

#[test]
fn cap_never_splits_a_character() {
    let mut s = "x".repeat(MAX_CHARS - 1);
    s.push_str(&"é".repeat(10));
    let capped = cap(s.clone());
    assert!(capped.ends_with("\n… (output truncated)"));
    let kept = capped.strip_suffix("\n… (output truncated)").unwrap();
    assert_eq!(kept.len(), MAX_CHARS - 1);
    assert!(s.starts_with(kept));
    assert_eq!(cap("short".to_string()), "short");
}

#[test]
fn api_error_text_is_code_colon_message() {
    let e = agpeer::common::ApiError::new("TransferNotFound", "transfer not found");
    assert_eq!(e.to_string(), "TransferNotFound: transfer not found");
}

#[test]
fn token_script_escapes_controls_as_serde_json_does() {
    assert_eq!(
        token_script("a\u{1}b\tc/é"),
        "<script>window.__AGPEER_TOKEN__=\"a\\u0001b\\tc/é\";</script>"
    );
}

#[test]
fn organize_run_moves_every_file_then_completes() {
    let mut job = new_organize_job(1, TransferId::new(), "Album", 10);
    let files = vec![
        ("a.flac".to_string(), "/dl/a.flac".to_string()),
        ("b.flac".to_string(), "/dl/b.flac".to_string()),
    ];
    let mut action = organize_start(&mut job, &files, 11);
    let mut moved = Vec::new();
    let mut now = 11;
    loop {
        match action {
            OrganizeAction::Move(i) => {
                moved.push(i);
                assert_eq!(job.steps[1].state, StepState::Running);
                now += 1;
                action = organize_next(&mut job, &files, i, Ok(()), now);
            },
            OrganizeAction::Done => break,
            OrganizeAction::Stop(e) => panic!("unexpected stop: {}", e.to_string()),
        }
    }
    assert_eq!(moved, vec![0, 1]);
    assert_eq!(job.state, JobState::Completed);
    assert_eq!(job.steps[0].state, StepState::Completed);
    assert_eq!(job.steps[1].state, StepState::Completed);
    assert_eq!(job.updated_at, 13);
}

#[test]
fn organize_run_stops_at_the_first_failed_move() {
    let mut job = new_organize_job(1, TransferId::new(), "Album", 10);
    let files = vec![
        ("a.flac".to_string(), "/dl/a.flac".to_string()),
        ("b.flac".to_string(), "/dl/b.flac".to_string()),
        ("c.flac".to_string(), "/dl/c.flac".to_string()),
    ];
    assert!(matches!(organize_start(&mut job, &files, 11), OrganizeAction::Move(0)));
    assert!(matches!(organize_next(&mut job, &files, 0, Ok(()), 12), OrganizeAction::Move(1)));
    let err = missing_file_error("/dl/b.flac");
    match organize_next(&mut job, &files, 1, Err(err), 13) {
        OrganizeAction::Stop(e) => assert_eq!(e.to_string(), "internal error: completed file missing: /dl/b.flac"),
        other => panic!("expected a stop, got {other:?}"),
    }
    assert_eq!(job.state, JobState::Failed);
    assert_eq!(job.steps[1].state, StepState::Failed);
    assert_eq!(job.steps[0].state, StepState::Pending);
    assert_eq!(
        job.error.as_deref(),
        Some("b.flac: internal error: completed file missing: /dl/b.flac")
    );
}

#[test]
fn organize_run_without_files_completes_at_once() {
    let mut job = new_organize_job(1, TransferId::new(), "x", 10);
    let files: Vec<(String, String)> = Vec::new();
    assert!(matches!(organize_start(&mut job, &files, 11), OrganizeAction::Done));
    assert_eq!(job.state, JobState::Completed);
    assert_eq!(job.steps[1].state, StepState::Pending);
}

#[test]
fn capped_output_stays_within_the_limit_and_marker() {
    let marker = "\n… (output truncated)";
    let s = "é".repeat(MAX_CHARS);
    let r = cap(s.clone());
    assert!(r.len() <= MAX_CHARS + marker.len());
    assert!(r.ends_with(marker));
    assert!(s.starts_with(r.strip_suffix(marker).unwrap()));
    let short = "ab".to_string();
    assert_eq!(cap(short.clone()), short);
}
