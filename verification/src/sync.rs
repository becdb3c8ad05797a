//! Decisions of the periodic transfer sync: the backend is authoritative
//! for the transfers it reports; a stored transfer missing from it is
//! marked orphaned, never deleted.

use vstd::prelude::*;
use crate::common::{terminal_state, Backend, TransferState};
use crate::ids::TransferId;

verus! {

/// What the sync compares of a transfer between two rounds (progress moves
/// are compared by the caller).
#[derive(Debug, Clone, Copy, PartialEq, Eq)]
pub struct SyncView {
    pub state: TransferState,
    pub download_rate: Option<u64>,
    pub eta: Option<u64>,
}

/// The event published for a stored transfer.
#[derive(Debug, Clone, Copy, PartialEq, Eq)]
pub enum SyncEvent {
    Added,
    Completed,
    Failed,
    Started,
    Progress,
}

pub open spec fn sync_event_name(e: SyncEvent) -> Seq<char> {
    match e {
        SyncEvent::Added => "transfer.added"@,
        SyncEvent::Completed => "transfer.completed"@,
        SyncEvent::Failed => "transfer.failed"@,
        SyncEvent::Started => "transfer.started"@,
        SyncEvent::Progress => "transfer.progress"@,
    }
}

impl SyncEvent {
    /// The event's name on the bus.
    pub fn as_str(&self) -> (s: &'static str)
        ensures
            s@ == sync_event_name(*self),
    {
        match self {
            SyncEvent::Added => "transfer.added",
            SyncEvent::Completed => "transfer.completed",
            SyncEvent::Failed => "transfer.failed",
            SyncEvent::Started => "transfer.started",
            SyncEvent::Progress => "transfer.progress",
        }
    }
}

/// What to do with one transfer the backend reported: store it and
/// publish an event (or neither), and whether to post-process it.
#[derive(Debug, Clone, Copy, PartialEq, Eq)]
pub struct SyncAction {
    pub event: Option<SyncEvent>,
    pub organize: bool,
}

/// The transfer changed since the stored record: a new one, or a state,
/// progress, rate or time-left change.
pub open spec fn sync_changed(prev: Option<SyncView>, cur: SyncView, progress_moved: bool) -> bool {
    match prev {
        None => true,
        Some(p) => p.state != cur.state || progress_moved || p.download_rate != cur.download_rate
            || p.eta != cur.eta,
    }
}

/// The event of a changed transfer: added when new, else completed or
/// failed by its state, started when it leaves the queue, else progress.
pub open spec fn sync_event(prev: Option<SyncView>, cur: SyncView) -> SyncEvent {
    if prev is None {
        SyncEvent::Added
    } else if cur.state == TransferState::Completed {
        SyncEvent::Completed
    } else if cur.state == TransferState::Failed {
        SyncEvent::Failed
    } else if prev->0.state == TransferState::Queued {
        SyncEvent::Started
    } else {
        SyncEvent::Progress
    }
}

/// The action for a reported transfer: an unchanged one is left alone; a
/// changed one is stored with its event, and post-processed when it first
/// reaches completed while automatic organizing is on.
pub open spec fn sync_action_of(prev: Option<SyncView>, cur: SyncView, progress_moved: bool, auto_organize: bool) -> SyncAction {
    if !sync_changed(prev, cur, progress_moved) {
        SyncAction { event: None, organize: false }
    } else {
        SyncAction {
            event: Some(sync_event(prev, cur)),
            organize: cur.state == TransferState::Completed && !(prev matches Some(p) && p.state
                == TransferState::Completed) && auto_organize,
        }
    }
}

/// Decides what the sync does with one reported transfer, given the
/// stored record, whether its progress moved, and whether automatic
/// organizing is on.
pub fn sync_action(prev: Option<SyncView>, cur: SyncView, progress_moved: bool, auto_organize: bool) -> (r:
    SyncAction)
    ensures
        r == sync_action_of(prev, cur, progress_moved, auto_organize),
{
    let changed = match prev {
        None => true,
        Some(p) => p.state != cur.state || progress_moved || p.download_rate != cur.download_rate
            || p.eta != cur.eta,
    };
    if !changed {
        return SyncAction { event: None, organize: false };
    }
    let event = match prev {
        None => SyncEvent::Added,
        Some(p) => if cur.state == TransferState::Completed {
            SyncEvent::Completed
        } else if cur.state == TransferState::Failed {
            SyncEvent::Failed
        } else if p.state == TransferState::Queued {
            SyncEvent::Started
        } else {
            SyncEvent::Progress
        },
    };
    let was_completed = match prev {
        Some(p) => p.state == TransferState::Completed,
        None => false,
    };
    SyncAction {
        event: Some(event),
        organize: cur.state == TransferState::Completed && !was_completed && auto_organize,
    }
}

/// A stored transfer is orphaned: it belongs to the backend, is still live,
/// and the backend no longer reports it.
pub open spec fn orphaned_spec(backend: Backend, stored_backend: Backend, state: TransferState, id: TransferId, reported: Seq<TransferId>) -> bool {
    stored_backend == backend && !terminal_state(state) && !reported.contains(id)
}

/// Whether the sync marks a stored transfer orphaned.
pub fn is_orphaned(
    backend: Backend,
    stored_backend: Backend,
    state: TransferState,
    id: TransferId,
    reported: &Vec<TransferId>,
) -> (b: bool)
    ensures
        b == orphaned_spec(backend, stored_backend, state, id, reported@),
{
    if stored_backend != backend || state.is_terminal() {
        return false;
    }
    let mut i: usize = 0;
    while i < reported.len()
        invariant
            i <= reported@.len(),
            forall|k: int| 0 <= k < i ==> reported@[k] != id,
        decreases reported.len() - i,
    {
        if reported[i].0 == id.0 {
            assert(reported@.contains(id)) by {
                assert(reported@[i as int] == id);
            }
            return false;
        }
        i = i + 1;
    }
    true
}

} // verus!

verus! {

/// A completed transfer is organized once: on the sync where it first
/// reaches completed (with automatic organizing on), and on no later sync
/// while its stored record stays completed.
pub proof fn law_organize_once(prev: Option<SyncView>, cur: SyncView, progress_moved: bool, auto_organize: bool)
    ensures
        (prev matches Some(p) && p.state == TransferState::Completed) ==> !sync_action_of(
            prev,
            cur,
            progress_moved,
            auto_organize,
        ).organize,
        (cur.state == TransferState::Completed && !(prev matches Some(p) && p.state == TransferState::Completed)
            && auto_organize) ==> sync_action_of(prev, cur, progress_moved, auto_organize).organize,
        sync_action_of(prev, cur, progress_moved, auto_organize).organize ==> auto_organize,
{
}

/// The backend is authoritative for what it reports: a transfer it reports
/// is never orphaned, and an orphaned or otherwise finished record is never
/// marked again.
pub proof fn law_reported_never_orphaned(
    backend: Backend,
    stored_backend: Backend,
    state: TransferState,
    id: TransferId,
    reported: Seq<TransferId>,
)
    ensures
        reported.contains(id) ==> !orphaned_spec(backend, stored_backend, state, id, reported),
        terminal_state(state) ==> !orphaned_spec(backend, stored_backend, state, id, reported),
        stored_backend != backend ==> !orphaned_spec(backend, stored_backend, state, id, reported),
{
}

} // verus!

verus! {

/// A stored transfer row as the orphan sweep sees it.
#[derive(Debug, Clone)]
pub struct StoredTransfer {
    pub id: TransferId,
    pub backend: Backend,
    pub state: TransferState,
    pub display_name: String,
    pub destination: String,
    pub bytes_total: Option<u64>,
    pub bytes_completed: u64,
    pub error: Option<String>,
}

/// `n` is the row `o` marked orphaned: its state is orphaned, its error is
/// `missing from backend`, and every other field is as it was.
pub open spec fn marked_orphaned(n: StoredTransfer, o: StoredTransfer) -> bool {
    &&& n.state == TransferState::Orphaned
    &&& n.error matches Some(e) && e@ == "missing from backend"@
    &&& n.id == o.id && n.backend == o.backend && n.display_name == o.display_name
    &&& n.destination == o.destination && n.bytes_total == o.bytes_total
    &&& n.bytes_completed == o.bytes_completed
}

/// The identifiers of the rows the sweep orphans, in table order.
pub open spec fn orphaned_ids(rows: Seq<StoredTransfer>, backend: Backend, reported: Seq<TransferId>) -> Seq<TransferId>
    decreases rows.len(),
{
    if rows.len() == 0 {
        seq![]
    } else {
        let r = rows.last();
        let rest = orphaned_ids(rows.drop_last(), backend, reported);
        if orphaned_spec(backend, r.backend, r.state, r.id, reported) {
            rest.push(r.id)
        } else {
            rest
        }
    }
}

/// Marks orphaned every stored row of `backend` that is still live and that
/// the backend no longer reports; returns their identifiers, in table order
/// (each gets a `transfer.orphaned` event). No row is removed, and every
/// other row is left exactly as it was.
pub fn mark_orphans(rows: &mut Vec<StoredTransfer>, backend: Backend, reported: &Vec<TransferId>) -> (ids: Vec<
    TransferId,
>)
    ensures
        final(rows)@.len() == old(rows)@.len(),
        forall|i: int|
            0 <= i < old(rows)@.len() ==> if orphaned_spec(
                backend,
                old(rows)@[i].backend,
                old(rows)@[i].state,
                old(rows)@[i].id,
                reported@,
            ) {
                marked_orphaned(#[trigger] final(rows)@[i], old(rows)@[i])
            } else {
                final(rows)@[i] == old(rows)@[i]
            },
        ids@ == orphaned_ids(old(rows)@, backend, reported@),
{
    let ghost r0 = rows@;
    let mut ids: Vec<TransferId> = Vec::new();
    let mut i: usize = 0;
    while i < rows.len()
        invariant
            i <= rows@.len(),
            rows@.len() == r0.len(),
            forall|j: int|
                0 <= j < i ==> if orphaned_spec(backend, r0[j].backend, r0[j].state, r0[j].id, reported@) {
                    marked_orphaned(#[trigger] rows@[j], r0[j])
                } else {
                    rows@[j] == r0[j]
                },
            forall|j: int| i <= j < r0.len() ==> #[trigger] rows@[j] == r0[j],
            ids@ == orphaned_ids(r0.take(i as int), backend, reported@),
        decreases rows.len() - i,
    {
        assert(r0.take(i + 1).drop_last() =~= r0.take(i as int));
        assert(rows@[i as int] == r0[i as int]);
        if is_orphaned(backend, rows[i].backend, rows[i].state, rows[i].id, reported) {
            let ghost before = rows@;
            let mut row = rows.remove(i);
            row.state = TransferState::Orphaned;
            row.error = Some(String::from_str("missing from backend"));
            ids.push(row.id);
            rows.insert(i, row);
            assert forall|j: int| 0 <= j < rows@.len() && j != i implies #[trigger] rows@[j] == before[j] by {}
        }
        i = i + 1;
    }
    assert(r0.take(r0.len() as int) =~= r0);
    ids
}

/// The orphan sweep never removes a row and touches only live rows of the
/// backend that it no longer reports: every other row, and in particular
/// every finished row, stays exactly as it was.
pub proof fn law_orphan_sweep(
    before: Seq<StoredTransfer>,
    after: Seq<StoredTransfer>,
    backend: Backend,
    reported: Seq<TransferId>,
    i: int,
)
    requires
        after.len() == before.len(),
        forall|j: int|
            0 <= j < before.len() ==> if orphaned_spec(backend, before[j].backend, before[j].state, before[j].id, reported) {
                marked_orphaned(#[trigger] after[j], before[j])
            } else {
                after[j] == before[j]
            },
        0 <= i < before.len(),
    ensures
        after.len() == before.len(),
        terminal_state(before[i].state) ==> after[i] == before[i],
        reported.contains(before[i].id) ==> after[i] == before[i],
        before[i].backend != backend ==> after[i] == before[i],
        after[i].id == before[i].id,
{
    assert(after[i] == after[i]);
}

} // verus!
