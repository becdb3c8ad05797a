use agpeer::common::{Backend, TransferState};
use agpeer::ids::TransferId;
use agpeer::sync::{is_orphaned, sync_action, SyncEvent, SyncView};
use agpeer::torrent::snapshot::{
    build_snapshot, snapshot_files, EngineState, EngineStats, FileInfo, LiveRates,
};

fn view(state: TransferState, rate: Option<u64>, eta: Option<u64>) -> SyncView {
    SyncView { state, download_rate: rate, eta }
}

#[test]
fn new_transfers_are_added() {
    let a = sync_action(None, view(TransferState::Queued, None, None), false, true);
    assert_eq!(a.event, Some(SyncEvent::Added));
    assert_eq!(SyncEvent::Added.as_str(), "transfer.added");
    assert!(!a.organize);
}

#[test]
fn unchanged_transfers_are_left_alone() {
    let v = view(TransferState::Downloading, Some(10), Some(5));
    let a = sync_action(Some(v), v, false, true);
    assert_eq!(a.event, None);
    assert!(!a.organize);
}

#[test]
fn leaving_the_queue_is_a_start_and_completion_organizes_once() {
    let queued = view(TransferState::Queued, None, None);
    let running = view(TransferState::Downloading, Some(10), Some(5));
    assert_eq!(sync_action(Some(queued), running, false, true).event, Some(SyncEvent::Started));
    assert_eq!(sync_action(Some(running), running, true, true).event, Some(SyncEvent::Progress));
    let done = view(TransferState::Completed, Some(0), None);
    let first = sync_action(Some(running), done, true, true);
    assert_eq!(first.event, Some(SyncEvent::Completed));
    assert!(first.organize);
    let again = sync_action(Some(done), done, true, true);
    assert!(!again.organize);
    assert!(!sync_action(Some(running), done, true, false).organize);
    let failed = view(TransferState::Failed, None, None);
    assert_eq!(sync_action(Some(running), failed, false, true).event, Some(SyncEvent::Failed));
}

#[test]
fn missing_live_transfers_are_orphaned() {
    let a = TransferId(1);
    let b = TransferId(2);
    let reported = vec![a];
    assert!(!is_orphaned(Backend::Torrent, Backend::Torrent, TransferState::Downloading, a, &reported));
    assert!(is_orphaned(Backend::Torrent, Backend::Torrent, TransferState::Downloading, b, &reported));
    assert!(!is_orphaned(Backend::Torrent, Backend::Soulseek, TransferState::Downloading, b, &reported));
    assert!(!is_orphaned(Backend::Torrent, Backend::Torrent, TransferState::Cancelled, b, &reported));
}

fn stats(state: EngineState, paused: bool, finished: bool, total: u64, done: u64, live: Option<LiveRates>) -> EngineStats {
    EngineStats { state, is_paused: paused, finished, total_bytes: total, progress_bytes: done, live }
}

#[test]
fn engine_states_normalize() {
    assert_eq!(build_snapshot(&stats(EngineState::Initializing, true, false, 0, 0, None), None, None, 1).state, TransferState::Queued);
    assert_eq!(build_snapshot(&stats(EngineState::Initializing, false, false, 0, 0, None), None, None, 1).state, TransferState::Resolving);
    assert_eq!(build_snapshot(&stats(EngineState::Paused, true, false, 0, 0, None), None, None, 1).state, TransferState::Paused);
    assert_eq!(build_snapshot(&stats(EngineState::Error, false, false, 0, 0, None), None, None, 1).state, TransferState::Failed);
}

#[test]
fn live_snapshot_has_rates_and_time_left() {
    let live = LiveRates { download_bps: 300, upload_bps: 7, peers: 4 };
    let s = build_snapshot(&stats(EngineState::Live, false, false, 1000, 100, Some(live)), None, None, 42);
    assert_eq!(s.state, TransferState::Downloading);
    assert_eq!(s.bytes_total, Some(1000));
    assert_eq!(s.bytes_completed, 100);
    assert_eq!(s.download_rate, Some(300));
    assert_eq!(s.upload_rate, Some(7));
    assert_eq!(s.peers, 4);
    assert_eq!(s.eta, Some(3));
    assert_eq!(s.started_at, Some(42));
    assert_eq!(s.completed_at, None);
}

#[test]
fn finished_snapshot_is_stamped_once() {
    let s = build_snapshot(&stats(EngineState::Live, false, true, 10, 12, None), Some(1), None, 50);
    assert_eq!(s.state, TransferState::Completed);
    assert_eq!(s.bytes_completed, 10);
    assert_eq!(s.download_rate, Some(0));
    assert_eq!(s.eta, None);
    assert_eq!(s.started_at, Some(1));
    assert_eq!(s.completed_at, Some(50));
    let again = build_snapshot(&stats(EngineState::Live, false, true, 10, 10, None), Some(1), Some(50), 99);
    assert_eq!(again.completed_at, Some(50));
}

#[test]
fn snapshot_files_follow_the_selection() {
    let infos = vec![
        FileInfo { path: "a.mkv".to_string(), length: 10 },
        FileInfo { path: "b.nfo".to_string(), length: 2 },
    ];
    let files = snapshot_files(&infos, &Some(vec![0]), &vec![5]);
    assert_eq!(files.len(), 2);
    assert_eq!(files[0].index, "0");
    assert!(files[0].selected);
    assert_eq!(files[0].bytes_completed, 5);
    assert_eq!(files[1].index, "1");
    assert!(!files[1].selected);
    assert_eq!(files[1].bytes_completed, 0);
    assert!(snapshot_files(&infos, &None, &vec![]).iter().all(|f| f.selected));
}

fn row(n: u128, backend: Backend, state: TransferState) -> agpeer::sync::StoredTransfer {
    agpeer::sync::StoredTransfer {
        id: TransferId(n),
        backend,
        state,
        display_name: format!("t{n}"),
        destination: "/d".to_string(),
        bytes_total: Some(10),
        bytes_completed: 5,
        error: None,
    }
}

#[test]
fn orphan_sweep_marks_missing_live_rows_only() {
    let mut rows = vec![
        row(1, Backend::Torrent, TransferState::Downloading),
        row(2, Backend::Torrent, TransferState::Downloading),
        row(3, Backend::Torrent, TransferState::Ready),
        row(4, Backend::Soulseek, TransferState::Queued),
    ];
    let ids = agpeer::sync::mark_orphans(&mut rows, Backend::Torrent, &vec![TransferId(1)]);
    assert_eq!(ids, vec![TransferId(2)]);
    assert_eq!(rows.len(), 4);
    assert_eq!(rows[1].state, TransferState::Orphaned);
    assert_eq!(rows[1].error.as_deref(), Some("missing from backend"));
    assert_eq!(rows[1].bytes_completed, 5);
    assert_eq!(rows[0].state, TransferState::Downloading);
    assert_eq!(rows[2].state, TransferState::Ready);
    assert_eq!(rows[3].state, TransferState::Queued);
    assert!(rows[0].error.is_none() && rows[2].error.is_none() && rows[3].error.is_none());
}
