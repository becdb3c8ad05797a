//! The texts that persisted states are stored as, and how stored texts are
//! read back. Unknown texts read as a fixed default, so a row written by a
//! newer version never fails to load.

use vstd::prelude::*;
use crate::common::{
    Backend, PostprocessState, SearchState, TransferState, backend_name, postprocess_state_name,
    search_state_name, transfer_state_name,
};
use crate::jobs::{JobState, job_state_name};
use crate::text::{chars_of, eq_lit};

verus! {

/// State of a backend as last observed.
#[derive(Debug, Clone, Copy, PartialEq, Eq, Structural)]
pub enum BackendState {
    Ready,
    Degraded,
    Stopped,
}

pub open spec fn backend_state_name(s: BackendState) -> Seq<char> {
    match s {
        BackendState::Ready => "ready"@,
        BackendState::Degraded => "degraded"@,
        BackendState::Stopped => "stopped"@,
    }
}

pub open spec fn backend_state_of(s: Seq<char>) -> BackendState {
    if s == "degraded"@ {
        BackendState::Degraded
    } else if s == "stopped"@ {
        BackendState::Stopped
    } else {
        BackendState::Ready
    }
}

fn is_lit(s: &str, lit: &str) -> (b: bool)
    ensures
        b == (s@ == lit@),
{
    let c = chars_of(s);
    eq_lit(c.as_slice(), lit)
}

impl BackendState {
    pub fn as_str(&self) -> (s: &'static str)
        ensures
            s@ == backend_state_name(*self),
    {
        match self {
            BackendState::Ready => "ready",
            BackendState::Degraded => "degraded",
            BackendState::Stopped => "stopped",
        }
    }

    /// Reads a stored backend state; unknown text reads as `Ready`.
    pub fn parse(s: &str) -> (r: Self)
        ensures
            r == backend_state_of(s@),
    {
        if is_lit(s, "degraded") {
            BackendState::Degraded
        } else if is_lit(s, "stopped") {
            BackendState::Stopped
        } else {
            BackendState::Ready
        }
    }
}

pub open spec fn transfer_state_of(s: Seq<char>) -> TransferState {
    if s == "queued"@ {
        TransferState::Queued
    } else if s == "resolving"@ {
        TransferState::Resolving
    } else if s == "downloading"@ {
        TransferState::Downloading
    } else if s == "paused"@ {
        TransferState::Paused
    } else if s == "verifying"@ {
        TransferState::Verifying
    } else if s == "completed"@ {
        TransferState::Completed
    } else if s == "postprocessing"@ {
        TransferState::Postprocessing
    } else if s == "ready"@ {
        TransferState::Ready
    } else if s == "failed"@ {
        TransferState::Failed
    } else if s == "cancelled"@ {
        TransferState::Cancelled
    } else if s == "orphaned"@ {
        TransferState::Orphaned
    } else {
        TransferState::Queued
    }
}

/// Reads a stored transfer state; unknown text reads as `Queued`.
pub fn parse_state(s: &str) -> (r: TransferState)
    ensures
        r == transfer_state_of(s@),
{
    if is_lit(s, "queued") {
        TransferState::Queued
    } else if is_lit(s, "resolving") {
        TransferState::Resolving
    } else if is_lit(s, "downloading") {
        TransferState::Downloading
    } else if is_lit(s, "paused") {
        TransferState::Paused
    } else if is_lit(s, "verifying") {
        TransferState::Verifying
    } else if is_lit(s, "completed") {
        TransferState::Completed
    } else if is_lit(s, "postprocessing") {
        TransferState::Postprocessing
    } else if is_lit(s, "ready") {
        TransferState::Ready
    } else if is_lit(s, "failed") {
        TransferState::Failed
    } else if is_lit(s, "cancelled") {
        TransferState::Cancelled
    } else if is_lit(s, "orphaned") {
        TransferState::Orphaned
    } else {
        TransferState::Queued
    }
}

pub open spec fn backend_of(s: Seq<char>) -> Backend {
    if s == "soulseek"@ {
        Backend::Soulseek
    } else if s == "hook"@ {
        Backend::Hook
    } else {
        Backend::Torrent
    }
}

/// Reads a stored backend name; unknown text reads as `Torrent`.
pub fn parse_backend(s: &str) -> (r: Backend)
    ensures
        r == backend_of(s@),
{
    if is_lit(s, "soulseek") {
        Backend::Soulseek
    } else if is_lit(s, "hook") {
        Backend::Hook
    } else {
        Backend::Torrent
    }
}

pub open spec fn postprocess_state_of(s: Seq<char>) -> PostprocessState {
    if s == "pending"@ {
        PostprocessState::Pending
    } else if s == "running"@ {
        PostprocessState::Running
    } else if s == "completed"@ {
        PostprocessState::Completed
    } else if s == "failed"@ {
        PostprocessState::Failed
    } else {
        PostprocessState::NotRequested
    }
}

/// Reads a stored post-processing state; unknown text reads as not
/// requested.
pub fn parse_postprocess(s: &str) -> (r: PostprocessState)
    ensures
        r == postprocess_state_of(s@),
{
    if is_lit(s, "pending") {
        PostprocessState::Pending
    } else if is_lit(s, "running") {
        PostprocessState::Running
    } else if is_lit(s, "completed") {
        PostprocessState::Completed
    } else if is_lit(s, "failed") {
        PostprocessState::Failed
    } else {
        PostprocessState::NotRequested
    }
}

pub open spec fn job_state_of(s: Seq<char>) -> JobState {
    if s == "running"@ {
        JobState::Running
    } else if s == "completed"@ {
        JobState::Completed
    } else if s == "failed"@ {
        JobState::Failed
    } else if s == "cancelled"@ {
        JobState::Cancelled
    } else {
        JobState::Pending
    }
}

/// Reads a stored job state; unknown text reads as `Pending`.
pub fn parse_job_state(s: &str) -> (r: JobState)
    ensures
        r == job_state_of(s@),
{
    if is_lit(s, "running") {
        JobState::Running
    } else if is_lit(s, "completed") {
        JobState::Completed
    } else if is_lit(s, "failed") {
        JobState::Failed
    } else if is_lit(s, "cancelled") {
        JobState::Cancelled
    } else {
        JobState::Pending
    }
}

pub open spec fn search_state_of(s: Seq<char>) -> SearchState {
    if s == "pending"@ {
        SearchState::Pending
    } else if s == "active"@ {
        SearchState::Active
    } else if s == "completed"@ {
        SearchState::Completed
    } else if s == "failed"@ {
        SearchState::Failed
    } else if s == "expired"@ {
        SearchState::Expired
    } else if s == "stopped"@ {
        SearchState::Stopped
    } else {
        SearchState::Pending
    }
}

/// Reads a stored search state; unknown text reads as `Pending`.
pub fn parse_search_state(s: &str) -> (r: SearchState)
    ensures
        r == search_state_of(s@),
{
    if is_lit(s, "pending") {
        SearchState::Pending
    } else if is_lit(s, "active") {
        SearchState::Active
    } else if is_lit(s, "completed") {
        SearchState::Completed
    } else if is_lit(s, "failed") {
        SearchState::Failed
    } else if is_lit(s, "expired") {
        SearchState::Expired
    } else if is_lit(s, "stopped") {
        SearchState::Stopped
    } else {
        SearchState::Pending
    }
}

/// A stored backend state reads back as itself.
pub proof fn law_backend_state_roundtrip(s: BackendState)
    ensures
        backend_state_of(backend_state_name(s)) == s,
{
    reveal_strlit("ready");
    assert("ready"@.len() == 5 && "ready"@[0] == 'r' && "ready"@[1] == 'e');
    reveal_strlit("degraded");
    assert("degraded"@.len() == 8 && "degraded"@[0] == 'd' && "degraded"@[1] == 'e');
    reveal_strlit("stopped");
    assert("stopped"@.len() == 7 && "stopped"@[0] == 's' && "stopped"@[1] == 't');
}

/// A stored transfer state reads back as itself.
pub proof fn law_transfer_state_roundtrip(s: TransferState)
    ensures
        transfer_state_of(transfer_state_name(s)) == s,
{
    reveal_strlit("queued");
    assert("queued"@.len() == 6 && "queued"@[0] == 'q' && "queued"@[1] == 'u');
    reveal_strlit("resolving");
    assert("resolving"@.len() == 9 && "resolving"@[0] == 'r' && "resolving"@[1] == 'e');
    reveal_strlit("downloading");
    assert("downloading"@.len() == 11 && "downloading"@[0] == 'd' && "downloading"@[1] == 'o');
    reveal_strlit("paused");
    assert("paused"@.len() == 6 && "paused"@[0] == 'p' && "paused"@[1] == 'a');
    reveal_strlit("verifying");
    assert("verifying"@.len() == 9 && "verifying"@[0] == 'v' && "verifying"@[1] == 'e');
    reveal_strlit("completed");
    assert("completed"@.len() == 9 && "completed"@[0] == 'c' && "completed"@[1] == 'o');
    reveal_strlit("postprocessing");
    assert("postprocessing"@.len() == 14 && "postprocessing"@[0] == 'p' && "postprocessing"@[1] == 'o');
    reveal_strlit("ready");
    assert("ready"@.len() == 5 && "ready"@[0] == 'r' && "ready"@[1] == 'e');
    reveal_strlit("failed");
    assert("failed"@.len() == 6 && "failed"@[0] == 'f' && "failed"@[1] == 'a');
    reveal_strlit("cancelled");
    assert("cancelled"@.len() == 9 && "cancelled"@[0] == 'c' && "cancelled"@[1] == 'a');
    reveal_strlit("orphaned");
    assert("orphaned"@.len() == 8 && "orphaned"@[0] == 'o' && "orphaned"@[1] == 'r');
}

/// A stored backend name reads back as the backend.
pub proof fn law_backend_roundtrip(b: Backend)
    ensures
        backend_of(backend_name(b)) == b,
{
    reveal_strlit("torrent");
    assert("torrent"@.len() == 7 && "torrent"@[0] == 't' && "torrent"@[1] == 'o');
    reveal_strlit("soulseek");
    assert("soulseek"@.len() == 8 && "soulseek"@[0] == 's' && "soulseek"@[1] == 'o');
    reveal_strlit("hook");
    assert("hook"@.len() == 4 && "hook"@[0] == 'h' && "hook"@[1] == 'o');
}

/// A stored post-processing state reads back as itself.
pub proof fn law_postprocess_state_roundtrip(s: PostprocessState)
    ensures
        postprocess_state_of(postprocess_state_name(s)) == s,
{
    reveal_strlit("none");
    assert("none"@.len() == 4 && "none"@[0] == 'n' && "none"@[1] == 'o');
    reveal_strlit("pending");
    assert("pending"@.len() == 7 && "pending"@[0] == 'p' && "pending"@[1] == 'e');
    reveal_strlit("running");
    assert("running"@.len() == 7 && "running"@[0] == 'r' && "running"@[1] == 'u');
    reveal_strlit("completed");
    assert("completed"@.len() == 9 && "completed"@[0] == 'c' && "completed"@[1] == 'o');
    reveal_strlit("failed");
    assert("failed"@.len() == 6 && "failed"@[0] == 'f' && "failed"@[1] == 'a');
}

/// A stored job state reads back as itself.
pub proof fn law_job_state_roundtrip(s: JobState)
    ensures
        job_state_of(job_state_name(s)) == s,
{
    reveal_strlit("pending");
    assert("pending"@.len() == 7 && "pending"@[0] == 'p' && "pending"@[1] == 'e');
    reveal_strlit("running");
    assert("running"@.len() == 7 && "running"@[0] == 'r' && "running"@[1] == 'u');
    reveal_strlit("completed");
    assert("completed"@.len() == 9 && "completed"@[0] == 'c' && "completed"@[1] == 'o');
    reveal_strlit("failed");
    assert("failed"@.len() == 6 && "failed"@[0] == 'f' && "failed"@[1] == 'a');
    reveal_strlit("cancelled");
    assert("cancelled"@.len() == 9 && "cancelled"@[0] == 'c' && "cancelled"@[1] == 'a');
}

/// A stored search state reads back as itself.
pub proof fn law_search_state_roundtrip(s: SearchState)
    ensures
        search_state_of(search_state_name(s)) == s,
{
    reveal_strlit("pending");
    assert("pending"@.len() == 7 && "pending"@[0] == 'p' && "pending"@[1] == 'e');
    reveal_strlit("active");
    assert("active"@.len() == 6 && "active"@[0] == 'a' && "active"@[1] == 'c');
    reveal_strlit("completed");
    assert("completed"@.len() == 9 && "completed"@[0] == 'c' && "completed"@[1] == 'o');
    reveal_strlit("failed");
    assert("failed"@.len() == 6 && "failed"@[0] == 'f' && "failed"@[1] == 'a');
    reveal_strlit("expired");
    assert("expired"@.len() == 7 && "expired"@[0] == 'e' && "expired"@[1] == 'x');
    reveal_strlit("stopped");
    assert("stopped"@.len() == 7 && "stopped"@[0] == 's' && "stopped"@[1] == 't');
}

} // verus!

verus! {

/// A stored search as the expiry sweep sees it: its identifier, state and
/// expiry time (Unix milliseconds).
#[derive(Debug, Clone, Copy)]
pub struct SearchRecord {
    pub id: crate::ids::SearchId,
    pub state: SearchState,
    pub expires_at: i64,
}

/// A search is due for expiry once its time has come, unless it is already
/// expired or was stopped.
pub open spec fn due(r: SearchRecord, now: i64) -> bool {
    r.expires_at <= now && r.state != SearchState::Expired && r.state != SearchState::Stopped
}

/// The record after a sweep at `now`.
pub open spec fn swept(r: SearchRecord, now: i64) -> SearchRecord {
    if due(r, now) {
        SearchRecord { state: SearchState::Expired, ..r }
    } else {
        r
    }
}

/// The identifiers of the due searches, in table order.
pub open spec fn due_ids(s: Seq<SearchRecord>, now: i64) -> Seq<crate::ids::SearchId>
    decreases s.len(),
{
    if s.len() == 0 {
        seq![]
    } else if due(s.last(), now) {
        due_ids(s.drop_last(), now).push(s.last().id)
    } else {
        due_ids(s.drop_last(), now)
    }
}

/// Marks every due search expired and returns their identifiers, in table
/// order.
pub fn expire_searches(records: &mut Vec<SearchRecord>, now: i64) -> (ids: Vec<crate::ids::SearchId>)
    ensures
        final(records)@.len() == old(records)@.len(),
        forall|i: int| 0 <= i < old(records)@.len() ==> #[trigger] final(records)@[i] == swept(old(records)@[i], now),
        ids@ == due_ids(old(records)@, now),
{
    let ghost s0 = records@;
    let mut ids: Vec<crate::ids::SearchId> = Vec::new();
    let mut i: usize = 0;
    while i < records.len()
        invariant
            i <= records@.len(),
            records@.len() == s0.len(),
            forall|j: int| 0 <= j < i ==> #[trigger] records@[j] == swept(s0[j], now),
            forall|j: int| i <= j < s0.len() ==> #[trigger] records@[j] == s0[j],
            ids@ == due_ids(s0.take(i as int), now),
        decreases records.len() - i,
    {
        assert(s0.take(i + 1).drop_last() =~= s0.take(i as int));
        let r = records[i];
        if r.expires_at <= now && r.state != SearchState::Expired && r.state != SearchState::Stopped {
            ids.push(r.id);
            records.set(i, SearchRecord { state: SearchState::Expired, ..r });
        }
        i = i + 1;
    }
    assert(s0.take(s0.len() as int) =~= s0);
    ids
}

proof fn lemma_none_due(s: Seq<SearchRecord>, now: i64)
    requires
        forall|i: int| 0 <= i < s.len() ==> !due(#[trigger] s[i], now),
    ensures
        due_ids(s, now) == Seq::<crate::ids::SearchId>::empty(),
    decreases s.len(),
{
    if s.len() > 0 {
        assert(!due(s[s.len() - 1], now));
        assert forall|i: int| 0 <= i < s.drop_last().len() implies !due(#[trigger] s.drop_last()[i], now) by {
            assert(s.drop_last()[i] == s[i]);
        }
        lemma_none_due(s.drop_last(), now);
    }
}

/// The expiry sweep is idempotent: right after a sweep, sweeping again at
/// the same time expires nothing and changes no record.
pub proof fn law_sweep_idempotent(s: Seq<SearchRecord>, now: i64)
    ensures
        ({
            let after = Seq::new(s.len(), |i: int| swept(s[i], now));
            &&& due_ids(after, now) == Seq::<crate::ids::SearchId>::empty()
            &&& forall|i: int| 0 <= i < after.len() ==> #[trigger] swept(after[i], now) == after[i]
        }),
{
    let after = Seq::new(s.len(), |i: int| swept(s[i], now));
    assert forall|i: int| 0 <= i < after.len() implies !due(#[trigger] after[i], now) by {}
    lemma_none_due(after, now);
}

/// A stored search result as the purge sees it: the search it belongs to
/// and its expiry time (Unix milliseconds).
#[derive(Debug, Clone, Copy)]
pub struct ResultRecord {
    pub search_id: crate::ids::SearchId,
    pub expires_at: i64,
}

/// The results that outlive a purge at `now`, in table order.
pub open spec fn kept_results(s: Seq<ResultRecord>, now: i64) -> Seq<ResultRecord>
    decreases s.len(),
{
    if s.len() == 0 {
        seq![]
    } else if s.last().expires_at <= now {
        kept_results(s.drop_last(), now)
    } else {
        kept_results(s.drop_last(), now).push(s.last())
    }
}

/// The searches of the results a purge at `now` removes, one per removed
/// result, in table order.
pub open spec fn purged_ids(s: Seq<ResultRecord>, now: i64) -> Seq<crate::ids::SearchId>
    decreases s.len(),
{
    if s.len() == 0 {
        seq![]
    } else if s.last().expires_at <= now {
        purged_ids(s.drop_last(), now).push(s.last().search_id)
    } else {
        purged_ids(s.drop_last(), now)
    }
}

/// Removes every result whose time has come; returns the search of each
/// removed result.
pub fn purge_expired_results(records: &mut Vec<ResultRecord>, now: i64) -> (ids: Vec<crate::ids::SearchId>)
    ensures
        final(records)@ == kept_results(old(records)@, now),
        ids@ == purged_ids(old(records)@, now),
{
    let mut kept: Vec<ResultRecord> = Vec::new();
    let mut ids: Vec<crate::ids::SearchId> = Vec::new();
    let mut i: usize = 0;
    while i < records.len()
        invariant
            i <= records@.len(),
            kept@ == kept_results(records@.take(i as int), now),
            ids@ == purged_ids(records@.take(i as int), now),
        decreases records.len() - i,
    {
        assert(records@.take(i + 1).drop_last() =~= records@.take(i as int));
        let r = records[i];
        if r.expires_at <= now {
            ids.push(r.search_id);
        } else {
            kept.push(r);
        }
        i = i + 1;
    }
    assert(records@.take(records@.len() as int) =~= records@);
    *records = kept;
    ids
}

} // verus!
