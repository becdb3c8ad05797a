//! The normalized snapshot of a torrent from the engine's live statistics:
//! its state, byte counts, rates, time to completion and files.

use vstd::prelude::*;
use crate::common::{TransferFile, TransferState};
use crate::text::{decimal, decimal_chars, string_of};

verus! {

/// The engine's own state of a torrent.
#[derive(Debug, Clone, Copy, PartialEq, Eq)]
pub enum EngineState {
    Initializing,
    Paused,
    Live,
    Error,
}

/// The live rates of a running torrent: bytes per second down and up (as
/// whole numbers), and connected peers.
#[derive(Debug, Clone, Copy, PartialEq, Eq)]
pub struct LiveRates {
    pub download_bps: u64,
    pub upload_bps: u64,
    pub peers: u64,
}

/// What the engine reports of a torrent.
#[derive(Debug, Clone, Copy, PartialEq, Eq)]
pub struct EngineStats {
    pub state: EngineState,
    pub is_paused: bool,
    pub finished: bool,
    pub total_bytes: u64,
    pub progress_bytes: u64,
    pub live: Option<LiveRates>,
}

/// The normalized view of a torrent at one moment (times in milliseconds).
#[derive(Debug, Clone, Copy, PartialEq, Eq)]
pub struct Snapshot {
    pub state: TransferState,
    pub bytes_total: Option<u64>,
    pub bytes_completed: u64,
    pub download_rate: Option<u64>,
    pub upload_rate: Option<u64>,
    pub peers: u64,
    pub eta: Option<u64>,
    pub started_at: Option<i64>,
    pub completed_at: Option<i64>,
}

/// The normalized state: an initializing torrent is queued while paused and
/// resolving otherwise; a live one is completed once finished and
/// downloading before; an engine error fails it.
pub open spec fn normalized_state(s: EngineStats) -> TransferState {
    match s.state {
        EngineState::Initializing => if s.is_paused {
            TransferState::Queued
        } else {
            TransferState::Resolving
        },
        EngineState::Paused => TransferState::Paused,
        EngineState::Live => if s.finished {
            TransferState::Completed
        } else {
            TransferState::Downloading
        },
        EngineState::Error => TransferState::Failed,
    }
}

/// `a / d` rounded up.
pub open spec fn ceil_div(a: int, d: int) -> int {
    if a % d == 0 {
        a / d
    } else {
        a / d + 1
    }
}

/// The snapshot of a torrent: its state; the first time it is seen
/// downloading and completed, stamped now; the completed bytes capped at
/// the total; no total while it is unknown; and, while live, its rates,
/// peers and the seconds left at the current rate (when it is unfinished,
/// has a rate and has bytes left), else zero rates and no peers.
pub open spec fn snapshot_of(s: EngineStats, started_at: Option<i64>, completed_at: Option<i64>, now: i64) -> Snapshot {
    let state = normalized_state(s);
    let completed = if s.progress_bytes < s.total_bytes {
        s.progress_bytes
    } else {
        s.total_bytes
    };
    Snapshot {
        state,
        bytes_total: if s.total_bytes > 0 {
            Some(s.total_bytes)
        } else {
            None
        },
        bytes_completed: completed,
        download_rate: match s.live {
            Some(l) => Some(l.download_bps),
            None => Some(0),
        },
        upload_rate: match s.live {
            Some(l) => Some(l.upload_bps),
            None => Some(0),
        },
        peers: match s.live {
            Some(l) => l.peers,
            None => 0,
        },
        eta: match s.live {
            Some(l) => if !s.finished && l.download_bps > 0 && s.total_bytes > completed {
                Some(ceil_div(s.total_bytes - completed, l.download_bps as int) as u64)
            } else {
                None
            },
            None => None,
        },
        started_at: if state == TransferState::Downloading && started_at is None {
            Some(now)
        } else {
            started_at
        },
        completed_at: if state == TransferState::Completed && completed_at is None {
            Some(now)
        } else {
            completed_at
        },
    }
}

/// Builds the snapshot of a torrent from the engine's statistics and the
/// times already recorded for it.
pub fn build_snapshot(s: &EngineStats, started_at: Option<i64>, completed_at: Option<i64>, now: i64) -> (r:
    Snapshot)
    ensures
        r == snapshot_of(*s, started_at, completed_at, now),
{
    let state = match s.state {
        EngineState::Initializing => if s.is_paused {
            TransferState::Queued
        } else {
            TransferState::Resolving
        },
        EngineState::Paused => TransferState::Paused,
        EngineState::Live => if s.finished {
            TransferState::Completed
        } else {
            TransferState::Downloading
        },
        EngineState::Error => TransferState::Failed,
    };
    let started = if state == TransferState::Downloading && started_at.is_none() {
        Some(now)
    } else {
        started_at
    };
    let done_at = if state == TransferState::Completed && completed_at.is_none() {
        Some(now)
    } else {
        completed_at
    };
    let total = s.total_bytes;
    let completed = if s.progress_bytes < total {
        s.progress_bytes
    } else {
        total
    };
    let (download_rate, upload_rate, peers, eta) = match s.live {
        Some(l) => {
            let eta = if !s.finished && l.download_bps > 0 && total > completed {
                let left = total - completed;
                let q = left / l.download_bps;
                if left % l.download_bps == 0 {
                    Some(q)
                } else {
                    let d = l.download_bps;
                    assert(q < u64::MAX) by (nonlinear_arith)
                        requires
                            q == left / d,
                            left % d != 0,
                            d > 0,
                            left <= u64::MAX,
                    {
                        assert(d != 1);
                        assert(q * d <= left);
                        assert(q * 2 <= q * d);
                    }
                    Some(q + 1)
                }
            } else {
                None
            };
            (Some(l.download_bps), Some(l.upload_bps), l.peers, eta)
        },
        None => (Some(0), Some(0), 0, None),
    };
    Snapshot {
        state,
        bytes_total: if total > 0 {
            Some(total)
        } else {
            None
        },
        bytes_completed: completed,
        download_rate,
        upload_rate,
        peers,
        eta,
        started_at: started,
        completed_at: done_at,
    }
}

/// A file of the torrent's metainfo: its relative path and length.
pub struct FileInfo {
    pub path: String,
    pub length: u64,
}

/// The file at position `i`: indexed by its position, selected when the
/// engine downloads every file or lists it, with the bytes the engine
/// reports for it (none when it reports none).
pub open spec fn snapshot_file(
    f: TransferFile,
    info: FileInfo,
    i: int,
    only: Option<Seq<usize>>,
    progress: Seq<u64>,
) -> bool {
    &&& f.index@ == decimal(i as nat)
    &&& f.path@ == info.path@
    &&& f.size == info.length
    &&& f.selected == match only {
        Some(o) => o.contains(i as usize),
        None => true,
    }
    &&& f.bytes_completed == if i < progress.len() {
        progress[i]
    } else {
        0
    }
}

pub open spec fn opt_seq(o: Option<Vec<usize>>) -> Option<Seq<usize>> {
    match o {
        Some(v) => Some(v@),
        None => None,
    }
}

/// The torrent's files as the snapshot lists them.
pub fn snapshot_files(infos: &Vec<FileInfo>, only: &Option<Vec<usize>>, progress: &Vec<u64>) -> (r: Vec<
    TransferFile,
>)
    ensures
        r@.len() == infos@.len(),
        forall|i: int|
            0 <= i < infos@.len() ==> snapshot_file(#[trigger] r@[i], infos@[i], i, opt_seq(*only), progress@),
{
    let mut r: Vec<TransferFile> = Vec::new();
    let mut i: usize = 0;
    while i < infos.len()
        invariant
            i <= infos@.len(),
            r@.len() == i,
            forall|k: int| 0 <= k < i ==> snapshot_file(#[trigger] r@[k], infos@[k], k, opt_seq(*only), progress@),
        decreases infos.len() - i,
    {
        let selected = match only {
            Some(o) => {
                let mut found = false;
                let mut k: usize = 0;
                while k < o.len()
                    invariant
                        k <= o@.len(),
                        found == exists|q: int| 0 <= q < k && o@[q] == i,
                    decreases o.len() - k,
                {
                    if o[k] == i {
                        found = true;
                    }
                    k = k + 1;
                }
                proof {
                    if found {
                        let q = choose|q: int| 0 <= q < o@.len() && o@[q] == i;
                        assert(o@.contains(i));
                    } else {
                        assert(!o@.contains(i));
                    }
                }
                found
            },
            None => true,
        };
        let done = if i < progress.len() {
            progress[i]
        } else {
            0
        };
        let d = decimal_chars(i as u64);
        let f = TransferFile {
            index: string_of(d.as_slice()),
            path: infos[i].path.clone(),
            size: infos[i].length,
            selected,
            bytes_completed: done,
        };
        r.push(f);
        i = i + 1;
    }
    r
}

} // verus!
