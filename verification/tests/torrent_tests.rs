use agpeer::common::{AddTransferRequest, Backend, FileSelection, TransferFile, TransferState};
use agpeer::ids::TransferId;
use agpeer::torrent::bencode::torrent_info;
use agpeer::torrent::config::TorrentConfig;
use agpeer::torrent::error::BackendError;
use agpeer::torrent::memory::MemoryEngine;
use agpeer::torrent::normalize::{apply_file_selection, only_files, resolve_destination, torrent_metadata, MetaValue};
use agpeer::torrent::source::{fallback_name, parse_source, SourceKind};

const MAGNET: &str = "magnet:?xt=urn:btih:cab507494d02ebb1178b38f2e9d7be299c86b862&dn=Ubuntu+22.04";

fn bstr(s: &str) -> Vec<u8> {
    format!("{}:{s}", s.len()).into_bytes()
}

fn bint(n: i64) -> Vec<u8> {
    format!("i{n}e").into_bytes()
}

fn blist(items: &[Vec<u8>]) -> Vec<u8> {
    let mut out = vec![b'l'];
    for item in items {
        out.extend_from_slice(item);
    }
    out.push(b'e');
    out
}

fn bdict(pairs: &[(&[u8], Vec<u8>)]) -> Vec<u8> {
    let mut out = vec![b'd'];
    for (key, value) in pairs {
        out.extend_from_slice(&format!("{}:", key.len()).into_bytes());
        out.extend_from_slice(key);
        out.extend_from_slice(value);
    }
    out.push(b'e');
    out
}

fn torrent_metainfo_single_file(name: &str, length: i64, private: bool) -> Vec<u8> {
    let info = bdict(&[
        (b"length", bint(length)),
        (b"name", bstr(name)),
        (b"private", bint(i64::from(private))),
    ]);
    bdict(&[(b"info", info)])
}

fn torrent_metainfo_multi_file(files: &[(&str, i64)]) -> Vec<u8> {
    let list: Vec<Vec<u8>> = files
        .iter()
        .map(|(name, length)| bdict(&[(b"length", bint(*length)), (b"path", blist(&[bstr(name)]))]))
        .collect();
    let info = bdict(&[(b"name", bstr("multi")), (b"files", blist(&list))]);
    bdict(&[(b"info", info)])
}

#[test]
fn parses_single_file_metainfo() {
    let data = torrent_metainfo_single_file("ubuntu.iso", 12345, true);
    let info = torrent_info(&data).unwrap();
    assert_eq!(info.name, "ubuntu.iso");
    assert_eq!(info.files, vec![("ubuntu.iso".to_string(), 12345)]);
    assert!(info.private);
}

#[test]
fn parses_multi_file_metainfo() {
    let data = torrent_metainfo_multi_file(&[("a.txt", 10), ("b.txt", 20)]);
    let info = torrent_info(&data).unwrap();
    assert_eq!(info.name, "multi");
    assert_eq!(info.files, vec![("a.txt".to_string(), 10), ("b.txt".to_string(), 20)]);
    assert!(!info.private);
}

#[test]
fn rejects_garbage() {
    assert!(torrent_info(b"hello").is_none());
    assert!(torrent_info(b"d4:infox").is_none());
    assert!(torrent_info(&[]).is_none());
}

#[test]
fn trailing_data_is_rejected() {
    let mut data = torrent_metainfo_single_file("x", 1, false);
    data.extend_from_slice(b"junk");
    assert!(torrent_info(&data).is_none());
}

#[test]
fn defaults_are_sane() {
    let cfg = TorrentConfig::with_download_root("/tmp/agpeer-downloads".to_string());
    assert!(!cfg.download_root.is_empty());
    assert!(cfg.enable_dht);
    assert!(cfg.enable_pex);
    assert!(cfg.enable_tracker);
    assert!(!cfg.enable_lsd);
    assert!(cfg.listen_port.is_none());
    assert!(cfg.download_rate_limit.is_none());
}

fn request(source: &str, destination: Option<&str>) -> AddTransferRequest {
    AddTransferRequest {
        backend: Backend::Torrent,
        source: source.into(),
        destination: destination.map(|d| d.to_string()),
        display_name: None,
        file_selection: None,
        metadata: Vec::new(),
    }
}

#[test]
fn missing_destination_uses_download_root() {
    let config = TorrentConfig::with_download_root("C:\\downloads".into());
    let request = request("magnet:?xt=urn:btih:abc", None);
    assert_eq!(resolve_destination(&request, &config).unwrap(), "C:\\downloads");
}

#[test]
fn relative_destination_is_rejected() {
    let config = TorrentConfig::with_download_root("downloads".into());
    let request = request("magnet:?xt=urn:btih:abc", Some("relative/path"));
    assert!(matches!(resolve_destination(&request, &config), Err(BackendError::UnsafePath)));
}

#[test]
fn file_selection_is_applied_by_index() {
    let mut files = vec![
        TransferFile { index: "0".into(), path: "a".into(), size: 10, selected: true, bytes_completed: 0 },
        TransferFile { index: "1".into(), path: "b".into(), size: 20, selected: true, bytes_completed: 0 },
    ];
    let selection = vec![
        FileSelection { index: "0".into(), selected: true },
        FileSelection { index: "1".into(), selected: false },
        FileSelection { index: "999".into(), selected: true },
    ];
    apply_file_selection(&mut files, Some(&selection));
    assert!(files[0].selected);
    assert!(!files[1].selected);
}

#[test]
fn valid_magnet_is_accepted() {
    match parse_source(MAGNET, false).unwrap() {
        SourceKind::Magnet { info_hash, display_name } => {
            assert_eq!(info_hash.as_deref(), Some("cab507494d02ebb1178b38f2e9d7be299c86b862"));
            assert_eq!(display_name.as_deref(), Some("Ubuntu 22.04"));
        }
        other => panic!("expected magnet, got {other:?}"),
    }
}

#[test]
fn magnet_without_question_mark_is_rejected() {
    assert!(matches!(parse_source("magnet:xt=urn:btih:deadbeef", false), Err(BackendError::InvalidSource)));
}

#[test]
fn magnet_without_xt_still_parses() {
    match parse_source("magnet:?dn=NoHash", false).unwrap() {
        SourceKind::Magnet { info_hash, display_name } => {
            assert!(info_hash.is_none());
            assert_eq!(display_name.as_deref(), Some("NoHash"));
        }
        other => panic!("expected magnet, got {other:?}"),
    }
}

#[test]
fn remote_urls_are_accepted() {
    assert!(matches!(parse_source("https://example.com/x.torrent", false).unwrap(), SourceKind::TorrentUrl(_)));
    assert!(matches!(parse_source("HTTP://example.com/x.torrent", false).unwrap(), SourceKind::TorrentUrl(_)));
    assert!(matches!(parse_source("ftp://example.com/x.torrent", false), Err(BackendError::InvalidSource)));
}

#[test]
fn existing_file_path_is_accepted() {
    assert!(matches!(parse_source("/downloads/sample.torrent", true).unwrap(), SourceKind::TorrentFile(_)));
}

#[test]
fn missing_file_is_rejected() {
    assert!(matches!(parse_source("/tmp/agpeer-does-not-exist.torrent", false), Err(BackendError::InvalidSource)));
}

#[test]
fn garbage_is_rejected() {
    for bad in ["", "  ", "wat", "C:\\", "magnet"] {
        assert!(matches!(parse_source(bad, false), Err(BackendError::InvalidSource)), "expected {bad:?} to be rejected");
    }
}

#[test]
fn fallback_names() {
    assert_eq!(fallback_name(&parse_source(MAGNET, false).unwrap()), "Ubuntu 22.04");
    assert_eq!(fallback_name(&parse_source("https://x.com/a/b.torrent", false).unwrap()), "b.torrent");
}

fn engine() -> MemoryEngine {
    MemoryEngine::new(TorrentConfig::with_download_root("/downloads".into()))
}

fn add(engine: &mut MemoryEngine, req: &AddTransferRequest, contents: Option<Result<Vec<u8>, String>>, is_file: bool, now: i64) -> Result<TransferId, BackendError> {
    let start = engine.begin_add(req, is_file)?;
    engine.finish_add(req, start, contents, TransferId::new(), now)
}

#[test]
fn magnet_metadata_is_namespaced_and_simulated() {
    let mut e = engine();
    let id = add(&mut e, &request(MAGNET, None), None, false, 1_000).unwrap();
    let entry = e.get(&id).unwrap();
    assert!(entry.meta.simulated);
    assert_eq!(entry.meta.info_hash.as_deref(), Some("cab507494d02ebb1178b38f2e9d7be299c86b862"));
    assert_eq!(entry.display_name, "Ubuntu 22.04");
    assert_eq!(entry.files.len(), 1);
    assert_eq!(entry.files[0].path, "Ubuntu 22.04.bin");
    assert_eq!(entry.state, TransferState::Downloading);
    assert_eq!(entry.destination, "/downloads");
}

#[test]
fn private_torrent_is_recorded() {
    let mut e = engine();
    let bytes = torrent_metainfo_single_file("secret.iso", 4096, true);
    let id = add(&mut e, &request("/in/secret.torrent", None), Some(Ok(bytes)), true, 5).unwrap();
    let entry = e.get(&id).unwrap();
    assert!(entry.meta.private);
    assert!(!entry.meta.simulated);
    assert_eq!(entry.display_name, "secret.iso");
    assert_eq!(entry.files[0].index, "0");
    assert_eq!(entry.files[0].size, 4096);
}

#[test]
fn invalid_sources_are_rejected() {
    let mut e = engine();
    assert!(matches!(add(&mut e, &request("wat", None), None, false, 0), Err(BackendError::InvalidSource)));
    let garbage = add(&mut e, &request("/in/bad.torrent", None), Some(Ok(b"hello".to_vec())), true, 0);
    assert!(matches!(garbage, Err(BackendError::InvalidSource)));
    assert_eq!(e.list().len(), 0);
}

#[test]
fn missing_transfer_is_not_found() {
    let mut e = engine();
    let id = TransferId::new();
    assert!(matches!(e.get(&id), Err(BackendError::TransferNotFound)));
    assert!(matches!(e.pause(&id), Err(BackendError::TransferNotFound)));
    assert!(matches!(e.resume(&id, 0), Err(BackendError::TransferNotFound)));
    assert!(matches!(e.cancel(&id, false), Err(BackendError::TransferNotFound)));
}

#[test]
fn lifecycle_pause_resume_cancel_forget() {
    let mut e = engine();
    let id = add(&mut e, &request(MAGNET, None), None, false, 0).unwrap();
    e.pause(&id).unwrap();
    assert_eq!(e.get(&id).unwrap().state, TransferState::Paused);
    assert!(matches!(e.pause(&id), Err(BackendError::InvalidState(m)) if m == "cannot pause paused"));
    e.resume(&id, 10).unwrap();
    assert_eq!(e.get(&id).unwrap().state, TransferState::Downloading);
    e.cancel(&id, true).unwrap();
    let entry = e.get(&id).unwrap();
    assert_eq!(entry.state, TransferState::Cancelled);
    assert!(entry.meta.data_deleted);
    e.cancel(&id, false).unwrap();
    e.forget(&id).unwrap();
    assert_eq!(e.list().len(), 0);
}

#[test]
fn simulated_progress_completes() {
    let mut e = engine();
    let id = add(&mut e, &request(MAGNET, None), None, false, 0).unwrap();
    e.advance(&id, 100_000);
    let half = e.get(&id).unwrap();
    assert_eq!(half.state, TransferState::Downloading);
    assert_eq!(half.files[0].bytes_completed, 524_288 * 100);
    e.advance(&id, 1_000_000);
    let done = e.get(&id).unwrap();
    assert_eq!(done.state, TransferState::Completed);
    assert_eq!(done.completed_at, Some(1_000_000));
    assert_eq!(done.files[0].bytes_completed, done.files[0].size);
}

#[test]
fn file_selection_is_applied() {
    let mut e = engine();
    let bytes = torrent_metainfo_multi_file(&[("a.txt", 10), ("b.txt", 20)]);
    let mut req = request("/in/multi.torrent", None);
    req.file_selection = Some(vec![FileSelection { index: "1".into(), selected: false }]);
    let id = add(&mut e, &req, Some(Ok(bytes)), true, 0).unwrap();
    let entry = e.get(&id).unwrap();
    assert!(entry.files[0].selected);
    assert!(!entry.files[1].selected);
}

#[test]
fn only_selected_files_are_downloaded() {
    let sel = |index: &str, selected: bool| FileSelection { index: index.to_string(), selected };
    assert!(matches!(only_files(&None), Ok(None)));
    let picked = only_files(&Some(vec![sel("2", true), sel("x", false), sel("+0", true)])).ok().unwrap();
    assert_eq!(picked, Some(vec![2, 0]));
    assert!(matches!(only_files(&Some(vec![sel("1", true), sel("one", true)])), Err(BackendError::InvalidSource)));
    assert_eq!(agpeer::text::parse_usize("007"), Some(7));
    assert_eq!(agpeer::text::parse_usize(""), None);
    assert_eq!(agpeer::text::parse_usize("18446744073709551616"), None);
}

fn meta_get<'a>(m: &'a [(String, MetaValue)], key: &str) -> Option<&'a MetaValue> {
    m.iter().find(|(k, _)| k == key).map(|(_, v)| v)
}

#[test]
fn metadata_is_namespaced_and_private_only_when_true() {
    let m = torrent_metadata("memory", Some("abc"), true);
    assert_eq!(meta_get(&m, "engine"), Some(&MetaValue::Text("memory".to_string())));
    assert_eq!(meta_get(&m, "info_hash"), Some(&MetaValue::Text("abc".to_string())));
    assert_eq!(meta_get(&m, "private"), Some(&MetaValue::Flag(true)));

    let m = torrent_metadata("memory", None, false);
    assert!(meta_get(&m, "private").is_none());
    assert!(meta_get(&m, "info_hash").is_none());
}

#[test]
fn cancel_twice_changes_nothing_more() {
    let mut e = engine();
    let id = add(&mut e, &request(MAGNET, None), None, false, 0).unwrap();
    e.advance(&id, 1_000);
    e.cancel(&id, false).unwrap();
    let once = e.get(&id).unwrap().clone();
    e.cancel(&id, true).unwrap();
    let twice = e.get(&id).unwrap();
    assert_eq!(twice.state, TransferState::Cancelled);
    assert_eq!(twice.files[0].bytes_completed, once.files[0].bytes_completed);
    assert_eq!(twice.meta.data_deleted, once.meta.data_deleted);
    assert!(!twice.meta.data_deleted);
}

#[test]
fn progress_freezes_while_paused_and_resumes_from_it() {
    let mut e = engine();
    let id = add(&mut e, &request(MAGNET, None), None, false, 0).unwrap();
    e.advance(&id, 10_000);
    let before = e.get(&id).unwrap().files[0].bytes_completed;
    e.pause(&id).unwrap();
    e.advance(&id, 500_000);
    assert_eq!(e.get(&id).unwrap().files[0].bytes_completed, before);
    e.resume(&id, 500_000).unwrap();
    assert_eq!(e.get(&id).unwrap().state, TransferState::Downloading);
    assert_eq!(e.get(&id).unwrap().files[0].bytes_completed, before);
    e.advance(&id, 510_000);
    assert!(e.get(&id).unwrap().files[0].bytes_completed > before);
}

#[test]
fn deep_or_partial_documents_are_rejected_without_failing() {
    assert!(torrent_info(&vec![b'l'; 100_000]).is_none());
    assert!(torrent_info(b"d4:infox").is_none());
    assert!(torrent_info(b"").is_none());
    assert!(torrent_info(b"hello").is_none());
    let mut deep = vec![b'l'; 300];
    deep.extend(vec![b'e'; 300]);
    assert!(torrent_info(&deep).is_none());
}

#[test]
fn caller_metadata_is_kept_beside_the_engine_entry() {
    let mut e = engine();
    let mut req = request(MAGNET, None);
    req.metadata = vec![
        ("origin".to_string(), "\"ui\"".to_string()),
        ("torrent".to_string(), "{\"x\":1}".to_string()),
        ("tags".to_string(), "[1,2]".to_string()),
    ];
    let id = add(&mut e, &req, None, false, 1_000).unwrap();
    let entry = e.get(&id).unwrap();
    assert_eq!(
        entry.caller_meta,
        vec![("origin".to_string(), "\"ui\"".to_string()), ("tags".to_string(), "[1,2]".to_string())]
    );
    assert!(entry.meta.simulated);
}
