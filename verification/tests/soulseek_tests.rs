use agpeer::common::{AddTransferRequest, Backend, Error, TransferState};
use agpeer::ids::ResultId;
use agpeer::soulseek::{
    requested_download, transfer_display_name, ResultStore, StoredResult,
    apply_failed_transfers, delivery_plan, delivery_step, normalize_separators, peer_basename,
    reconcile, requested_result, result_id_for, split_remote_path, DeliveryStep, DownloadStatus,
    PeerTransfer, Reconciled,
};

fn soulseek_transfer(destination: &str, filename: &str, size: u64) -> PeerTransfer {
    PeerTransfer {
        state: TransferState::Queued,
        bytes_total: Some(size),
        bytes_completed: 0,
        destination: destination.to_string(),
        username: Some("peer".to_string()),
        filename: Some(filename.to_string()),
        delivered: false,
        completed_at: None,
        error: None,
    }
}

#[test]
fn disk_completion_is_detected_when_status_is_missing() {
    let mut t = soulseek_transfer("/tmp/agpeer-slsk", "Some\\Path\\song.flac", 1024);
    assert_eq!(peer_basename(t.filename.as_deref().unwrap()), "song.flac");
    let status: Vec<DownloadStatus> = Vec::new();
    let r = reconcile(&mut t, &status, Some(1024), 1_700_000_000_000);
    assert_eq!(r, Reconciled::CompletedOnDisk);
    assert_eq!(t.state, TransferState::Completed);
    assert_eq!(t.bytes_completed, 1024);
    assert!(t.completed_at.is_some());
}

#[test]
fn missing_or_partial_file_keeps_queued() {
    let mut missing = soulseek_transfer("/tmp/agpeer-slsk", "gone.flac", 512);
    assert_eq!(reconcile(&mut missing, &vec![], None, 1), Reconciled::Unchanged);
    assert_eq!(missing.state, TransferState::Queued);

    let mut partial = soulseek_transfer("/tmp/agpeer-slsk", "partial.flac", 1024);
    assert_eq!(reconcile(&mut partial, &vec![], Some(100), 1), Reconciled::Unchanged);
    assert_eq!(partial.state, TransferState::Queued);
}

#[test]
fn forward_slash_basenames_are_handled() {
    let mut t = soulseek_transfer("/tmp/agpeer-slsk", "peer/Music/song.flac", 2048);
    assert_eq!(peer_basename("peer/Music/song.flac"), "song.flac");
    reconcile(&mut t, &vec![], Some(2048), 1);
    assert_eq!(t.state, TransferState::Completed);
}

#[test]
fn live_status_drives_progress_and_completion() {
    let mut t = soulseek_transfer("/d", "a/song.flac", 0);
    let other = DownloadStatus { username: "else".to_string(), filename: "a/song.flac".to_string(), size: 10, offset: 10 };
    let mine = DownloadStatus { username: "peer".to_string(), filename: "a/song.flac".to_string(), size: 10, offset: 4 };
    assert_eq!(reconcile(&mut t, &vec![other, mine], None, 5), Reconciled::FromStatus);
    assert_eq!(t.state, TransferState::Downloading);
    assert_eq!(t.bytes_total, Some(10));
    assert_eq!(t.bytes_completed, 4);
    assert_eq!(t.completed_at, None);

    let done = DownloadStatus { username: "peer".to_string(), filename: "a/song.flac".to_string(), size: 10, offset: 10 };
    reconcile(&mut t, &vec![done], None, 9);
    assert_eq!(t.state, TransferState::Completed);
    assert_eq!(t.completed_at, Some(9));
}

#[test]
fn settled_transfer_is_not_completed_from_disk() {
    let mut t = soulseek_transfer("/d", "song.flac", 10);
    t.state = TransferState::Cancelled;
    assert_eq!(reconcile(&mut t, &vec![], Some(10), 1), Reconciled::Unchanged);
    assert_eq!(t.state, TransferState::Cancelled);
}

#[test]
fn refused_download_marks_matching_transfer_failed() {
    let t = soulseek_transfer("dest", "Some\\Path\\song.flac", 1024);
    let mut transfers = vec![t];
    // The peer echoes the refusal path with opposite separators.
    let marked = apply_failed_transfers(
        &mut transfers,
        &vec![("peer".to_string(), "Some/Path/song.flac".to_string())],
    );
    assert_eq!(marked, 1);
    let t = &transfers[0];
    assert_eq!(t.state, TransferState::Failed);
    assert_eq!(t.error.as_deref(), Some("download refused by peer"));
}

#[test]
fn refusal_for_other_peer_or_terminal_transfer_is_ignored() {
    let a = soulseek_transfer("dest", "song.flac", 10);
    let mut b = soulseek_transfer("dest", "gone.flac", 5);
    b.state = TransferState::Completed;
    let mut transfers = vec![a, b];

    let marked = apply_failed_transfers(
        &mut transfers,
        &vec![("someoneelse".to_string(), "song.flac".to_string())],
    );
    assert_eq!(marked, 0);

    let marked = apply_failed_transfers(&mut transfers, &vec![("peer".to_string(), "gone.flac".to_string())]);
    assert_eq!(marked, 0);
    assert!(transfers.iter().all(|t| t.state != TransferState::Failed));
}

#[test]
fn completed_download_is_delivered_into_requested_destination() {
    let t = soulseek_transfer("/base/unsorted", "a\\b\\song.ogg", 100);
    let plan = delivery_plan(&t, "/base/dl").unwrap();
    assert_eq!(plan.basename, "song.ogg");
    assert_eq!(plan.expected, 100);
    assert_eq!(delivery_step(100, Some(100), None, false), DeliveryStep::Move);
    assert_eq!(delivery_step(100, None, Some(100), true), DeliveryStep::AlreadyDelivered);
}

#[test]
fn partial_source_is_not_delivered() {
    let t = soulseek_transfer("/base/unsorted", "song.ogg", 100);
    assert!(delivery_plan(&t, "/base/dl").is_some());
    assert_eq!(delivery_step(100, Some(50), None, false), DeliveryStep::Leave);
}

#[test]
fn same_destination_is_a_noop() {
    let t = soulseek_transfer("C:\\base", "song.ogg", 100);
    assert!(delivery_plan(&t, "C:/base").is_none());
    let mut delivered = soulseek_transfer("/x", "song.ogg", 100);
    delivered.delivered = true;
    assert!(delivery_plan(&delivered, "/y").is_none());
}

#[test]
fn remote_paths_split_at_the_last_slash() {
    let (dir, name) = split_remote_path("Music/Album/01.flac");
    assert_eq!((dir.as_str(), name.as_str()), ("Music/Album", "01.flac"));
    let (dir, name) = split_remote_path("Music\\01.flac");
    assert_eq!((dir.as_str(), name.as_str()), ("/", "Music\\01.flac"));
    assert_eq!(normalize_separators("a\\b/c"), "a/b/c");
}

#[test]
fn result_ids_are_stable_per_peer_file() {
    let a = result_id_for("peer", "Music/01.flac");
    assert_eq!(a, result_id_for("peer", "Music/01.flac"));
    assert_ne!(a, result_id_for("other", "Music/01.flac"));
}

#[test]
fn only_soulseek_result_sources_are_downloads() {
    let req = |backend: Backend, source: &str| AddTransferRequest {
        backend,
        source: source.to_string(),
        destination: None,
        display_name: None,
        file_selection: None,
        metadata: Vec::new(),
    };
    assert_eq!(requested_result(&req(Backend::Soulseek, "soulseek:result:abc")).ok().unwrap(), "abc");
    assert!(matches!(requested_result(&req(Backend::Torrent, "soulseek:result:abc")), Err(Error::InvalidSource)));
    assert!(matches!(requested_result(&req(Backend::Soulseek, "magnet:?xt=x")), Err(Error::InvalidSource)));
}

#[test]
fn new_downloads_are_queued_in_their_destination() {
    let t = agpeer::soulseek::queued_transfer(None, "/dl", "peer", "a/b.flac", Some(42));
    assert_eq!(t.state, TransferState::Queued);
    assert_eq!(t.destination, "/dl");
    assert_eq!(t.bytes_total, Some(42));
    assert_eq!(t.username.as_deref(), Some("peer"));
    let u = agpeer::soulseek::queued_transfer(Some("/music".to_string()), "/dl", "peer", "x", None);
    assert_eq!(u.destination, "/music");
    assert_eq!(u.bytes_total, None);
}

#[test]
fn result_download_request_is_read_back_by_soulseek() {
    let id = agpeer::ids::ResultId(0x00112233445566778899aabbccddeeff);
    let body = Some(agpeer::api::DownloadDestination { destination: Some("/music".to_string()) });
    let req = agpeer::api::result_download_request(&id, "song.flac", &body);
    assert_eq!(req.backend, Backend::Soulseek);
    assert_eq!(req.source, "soulseek:result:00112233-4455-6677-8899-aabbccddeeff");
    assert_eq!(req.display_name.as_deref(), Some("song.flac"));
    assert_eq!(req.destination.as_deref(), Some("/music"));
    assert!(req.file_selection.is_none());
    assert_eq!(requested_result(&req).ok().as_deref(), Some("00112233-4455-6677-8899-aabbccddeeff"));
    let bare = agpeer::api::result_download_request(&id, "song.flac", &None);
    assert!(bare.destination.is_none());
}

#[test]
fn unavailable_maps_to_backend_unavailable() {
    assert_eq!(
        agpeer::soulseek::map_error(agpeer::soulseek::SoulseekError::Unavailable("down".into())).code(),
        "BackendUnavailable"
    );
}

#[test]
fn authentication_maps_to_authentication_failed() {
    assert_eq!(agpeer::soulseek::map_error(agpeer::soulseek::SoulseekError::AuthenticationFailed).code(), "AuthenticationFailed");
}

#[test]
fn client_detail_maps_to_backend_error() {
    match agpeer::soulseek::map_error(agpeer::soulseek::SoulseekError::Io("disk".into())) {
        Error::Backend(m) => assert_eq!(m, "disk"),
        other => panic!("unexpected {other:?}"),
    }
}

fn download_request(source: &str) -> AddTransferRequest {
    AddTransferRequest {
        backend: Backend::Soulseek,
        source: source.to_string(),
        destination: None,
        display_name: None,
        file_selection: None,
        metadata: Vec::new(),
    }
}

#[test]
fn stored_results_answer_download_requests() {
    let mut store = ResultStore::new();
    let id = result_id_for("alice", "Music\\a.flac");
    store.insert(&id, StoredResult { username: "alice".into(), filename: "Music\\a.flac".into(), size: Some(9) });
    let found = requested_download(&download_request(&format!("soulseek:result:{}", id.to_string())), &store).unwrap();
    assert_eq!(found.username, "alice");
    assert_eq!(found.filename, "Music\\a.flac");
    assert_eq!(found.size, Some(9));
    let other = ResultId::new();
    assert!(matches!(
        requested_download(&download_request(&format!("soulseek:result:{}", other.to_string())), &store),
        Err(Error::ResultExpired)
    ));
    assert!(matches!(
        requested_download(&download_request(&format!("soulseek:result:{}", id.to_string().to_uppercase())), &store),
        Err(Error::ResultExpired)
    ));
    assert!(matches!(requested_download(&download_request("soulseek:result:nope"), &store), Err(Error::ResultExpired)));
    assert!(matches!(requested_download(&download_request("magnet:?x"), &store), Err(Error::InvalidSource)));
}

#[test]
fn a_later_result_replaces_the_stored_one() {
    let mut store = ResultStore::new();
    let id = result_id_for("bob", "x.mp3");
    store.insert(&id, StoredResult { username: "bob".into(), filename: "x.mp3".into(), size: None });
    store.insert(&id, StoredResult { username: "bob".into(), filename: "x.mp3".into(), size: Some(3) });
    assert_eq!(store.lookup(&id.to_string()).unwrap().size, Some(3));
}

#[test]
fn display_name_falls_back_to_the_remote_path() {
    assert_eq!(transfer_display_name(&Some("Mine".to_string()), "Music\\a.flac"), "Mine");
    assert_eq!(transfer_display_name(&None, "Music\\a.flac"), "Music\\a.flac");
}
