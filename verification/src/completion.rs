//! Automatic organization of a transfer's files when it completes.
//!
//! The run is recorded as a [`Job`] with a `verify` step and a `move` step;
//! each file of the transfer goes through the `move` step in turn, and the
//! first failure fails the job. The moves themselves are outside work: the
//! functions here set up the job, list the files, and record each outcome.

use vstd::prelude::*;
use vstd::string::StringExecFns;
use crate::common::{Error, TransferFile, error_text};
use crate::ids::{TransferId, uuid_text};
use crate::jobs::{Job, JobState, Step, StepKind, StepState};
use crate::paths::join;
use crate::text::{chars_of, string_of};

verus! {

/// Automatic organization runs for a configuration that asks for it and
/// names a library root.
pub fn auto_organize_enabled(config: &crate::config::AppConfig) -> (b: bool)
    ensures
        b == (config.postprocess.auto_organize && crate::text::trim(config.postprocess.library_root@).len() != 0),
{
    config.postprocess.auto_organize && !crate::text::is_blank(config.postprocess.library_root.as_str())
}

/// A pending step with no times or error.
pub open spec fn fresh_step(s: Step, index: u32, kind: StepKind) -> bool {
    &&& s.index == index
    &&& s.kind == kind
    &&& s.state == StepState::Pending
    &&& s.started_at is None
    &&& s.completed_at is None
    &&& s.error is None
}

/// A running job for organizing a completed transfer: a pending `verify`
/// step and a pending `move` step.
pub fn new_organize_job(id: u128, transfer_id: TransferId, display_name: &str, now: i64) -> (j: Job)
    ensures
        j.id == id,
        j.transfer_id == transfer_id,
        j.target@ == display_name@,
        j.state == JobState::Running,
        j.steps@.len() == 2,
        fresh_step(j.steps@[0], 0, StepKind::Verify),
        fresh_step(j.steps@[1], 1, StepKind::Move),
        j.created_at == now,
        j.updated_at == now,
        j.error is None,
{
    let mut steps: Vec<Step> = Vec::new();
    steps.push(
        Step {
            index: 0,
            kind: StepKind::Verify,
            state: StepState::Pending,
            started_at: None,
            completed_at: None,
            error: None,
        },
    );
    steps.push(
        Step {
            index: 1,
            kind: StepKind::Move,
            state: StepState::Pending,
            started_at: None,
            completed_at: None,
            error: None,
        },
    );
    Job {
        id,
        transfer_id,
        target: String::from_str(display_name),
        state: JobState::Running,
        steps,
        created_at: now,
        updated_at: now,
        error: None,
    }
}

/// The files to organize, each as its path relative to the transfer's
/// destination and the full path: the transfer's file list, or, for a
/// transfer with none, its display name.
pub open spec fn organize_files_spec(
    destination: Seq<char>,
    display_name: Seq<char>,
    files: Seq<TransferFile>,
) -> Seq<(Seq<char>, Seq<char>)> {
    if files.len() == 0 {
        seq![(display_name, join(destination, display_name))]
    } else {
        Seq::new(files.len(), |i: int| (files[i].path@, join(destination, files[i].path@)))
    }
}

pub open spec fn pair_views(v: Seq<(String, String)>) -> Seq<(Seq<char>, Seq<char>)> {
    Seq::new(v.len(), |i: int| (v[i].0@, v[i].1@))
}

/// The files of a completed transfer to organize.
pub fn files_to_organize(destination: &str, display_name: &str, files: &Vec<TransferFile>) -> (r: Vec<(String, String)>)
    ensures
        pair_views(r@) == organize_files_spec(destination@, display_name@, files@),
{
    let d = chars_of(destination);
    let mut r: Vec<(String, String)> = Vec::new();
    if files.len() == 0 {
        let n = chars_of(display_name);
        let full = crate::paths::join_chars(d.as_slice(), n.as_slice());
        r.push((String::from_str(display_name), string_of(full.as_slice())));
        assert(pair_views(r@) =~= organize_files_spec(destination@, display_name@, files@));
        return r;
    }
    let mut i: usize = 0;
    while i < files.len()
        invariant
            i <= files@.len(),
            d@ == destination@,
            r@.len() == i,
            forall|k: int|
                0 <= k < i ==> (#[trigger] r@[k]).0@ == files@[k].path@ && r@[k].1@ == join(
                    destination@,
                    files@[k].path@,
                ),
        decreases files.len() - i,
    {
        let p = chars_of(files[i].path.as_str());
        let full = crate::paths::join_chars(d.as_slice(), p.as_slice());
        r.push((files[i].path.clone(), string_of(full.as_slice())));
        i = i + 1;
    }
    assert(pair_views(r@) =~= organize_files_spec(destination@, display_name@, files@));
    r
}

/// The `move` step (the second) started at `now`.
pub fn move_started(job: &mut Job, now: i64)
    requires
        old(job).steps@.len() >= 2,
    ensures
        final(job).steps@ == old(job).steps@.update(
            1,
            Step { state: StepState::Running, started_at: Some(now), ..old(job).steps@[1] },
        ),
        final(job).updated_at == now,
        final(job).state == old(job).state,
        final(job).error == old(job).error,
        final(job).id == old(job).id,
        final(job).transfer_id == old(job).transfer_id,
        final(job).target == old(job).target,
        final(job).created_at == old(job).created_at,
{
    let s = Step {
        index: job.steps[1].index,
        kind: job.steps[1].kind,
        state: StepState::Running,
        started_at: Some(now),
        completed_at: job.steps[1].completed_at,
        error: match &job.steps[1].error {
            Some(e) => Some(e.clone()),
            None => None,
        },
    };
    job.steps.set(1, s);
    job.updated_at = now;
}

/// Records how moving the file at `relative` went: a success completes the
/// `move` step; a failure fails it and the job, with the job's error naming
/// the file. The result is handed back.
pub fn move_finished(job: &mut Job, relative: &str, result: Result<(), Error>, now: i64) -> (r: Result<(), Error>)
    requires
        old(job).steps@.len() >= 2,
    ensures
        r == result,
        final(job).steps@.len() == old(job).steps@.len(),
        final(job).steps@[0] == old(job).steps@[0],
        forall|x: int| 2 <= x < old(job).steps@.len() ==> #[trigger] final(job).steps@[x] == old(job).steps@[x],
        final(job).id == old(job).id,
        final(job).transfer_id == old(job).transfer_id,
        final(job).target == old(job).target,
        final(job).created_at == old(job).created_at,
        final(job).steps@[1].index == old(job).steps@[1].index,
        final(job).steps@[1].kind == old(job).steps@[1].kind,
        final(job).steps@[1].started_at == old(job).steps@[1].started_at,
        match result {
            Ok(()) => {
                &&& final(job).steps@[1] == Step {
                    state: StepState::Completed,
                    completed_at: Some(now),
                    ..old(job).steps@[1]
                }
                &&& final(job).state == old(job).state
                &&& final(job).error == old(job).error
                &&& final(job).updated_at == old(job).updated_at
            },
            Err(e) => {
                &&& final(job).steps@[1].state == StepState::Failed
                &&& final(job).steps@[1].completed_at == old(job).steps@[1].completed_at
                &&& final(job).steps@[1].error matches Some(t) && t@ == error_text(e)
                &&& final(job).state == JobState::Failed
                &&& final(job).error matches Some(t) && t@ == relative@ + ": "@ + error_text(e)
                &&& final(job).updated_at == now
            },
        },
{
    match result {
        Ok(u) => {
            let s = Step {
                index: job.steps[1].index,
                kind: job.steps[1].kind,
                state: StepState::Completed,
                started_at: job.steps[1].started_at,
                completed_at: Some(now),
                error: match &job.steps[1].error {
                    Some(e) => Some(e.clone()),
                    None => None,
                },
            };
            job.steps.set(1, s);
            Ok(u)
        },
        Err(e) => {
            let text = e.to_string();
            let mut full = chars_of(relative);
            let sep = chars_of(": ");
            let tc = chars_of(text.as_str());
            crate::text::push_all(&mut full, sep.as_slice());
            crate::text::push_all(&mut full, tc.as_slice());
            let s = Step {
                index: job.steps[1].index,
                kind: job.steps[1].kind,
                state: StepState::Failed,
                started_at: job.steps[1].started_at,
                completed_at: job.steps[1].completed_at,
                error: Some(text),
            };
            job.steps.set(1, s);
            job.state = JobState::Failed;
            job.error = Some(string_of(full.as_slice()));
            job.updated_at = now;
            Err(e)
        },
    }
}

/// Every file organized: the `verify` step (the first) and the job
/// complete at `now`.
pub fn organize_completed(job: &mut Job, now: i64)
    requires
        old(job).steps@.len() >= 1,
    ensures
        final(job).steps@ == old(job).steps@.update(
            0,
            Step { state: StepState::Completed, completed_at: Some(now), ..old(job).steps@[0] },
        ),
        final(job).state == JobState::Completed,
        final(job).updated_at == now,
        final(job).error == old(job).error,
        final(job).id == old(job).id,
        final(job).transfer_id == old(job).transfer_id,
        final(job).target == old(job).target,
        final(job).created_at == old(job).created_at,
{
    let s = Step {
        index: job.steps[0].index,
        kind: job.steps[0].kind,
        state: StepState::Completed,
        started_at: job.steps[0].started_at,
        completed_at: Some(now),
        error: match &job.steps[0].error {
            Some(e) => Some(e.clone()),
            None => None,
        },
    };
    job.steps.set(0, s);
    job.state = JobState::Completed;
    job.updated_at = now;
}

/// What comes next in organizing a transfer's files.
#[derive(Debug)]
pub enum OrganizeAction {
    /// Move the file at this index of the list (its `move` step is
    /// running), then call [`organize_next`] with how it went.
    Move(usize),
    /// Moving a file failed with this error; the job failed and nothing
    /// more is moved.
    Stop(Error),
    /// Every file was organized; the job completed.
    Done,
}

/// The error for a completed file that is not on disk at `absolute`.
pub fn missing_file_error(absolute: &str) -> (e: Error)
    ensures
        e matches Error::Internal(t) && t@ == "completed file missing: "@ + absolute@,
{
    let mut t = chars_of("completed file missing: ");
    let a = chars_of(absolute);
    crate::text::push_all(&mut t, a.as_slice());
    Error::Internal(string_of(t.as_slice()))
}

/// What stays the same while organizing: the number of steps and the job's
/// identity.
pub open spec fn same_frame(j0: Job, j: Job) -> bool {
    &&& j.steps@.len() == j0.steps@.len()
    &&& j.id == j0.id
    &&& j.transfer_id == j0.transfer_id
    &&& j.target == j0.target
    &&& j.created_at == j0.created_at
}

/// The `move` step running from `now` for the next file.
pub open spec fn move_running(j0: Job, j: Job, now: i64) -> bool {
    &&& j.steps@ == j0.steps@.update(1, Step { state: StepState::Running, started_at: Some(now), ..j0.steps@[1] })
    &&& j.state == j0.state
    &&& j.error == j0.error
    &&& j.updated_at == now
}

/// The `verify` step and the job completed at `now`, after the steps `s`.
pub open spec fn job_completed(j0: Job, j: Job, s: Seq<Step>, now: i64) -> bool {
    &&& j.steps@ == s.update(0, Step { state: StepState::Completed, completed_at: Some(now), ..s[0] })
    &&& j.state == JobState::Completed
    &&& j.error == j0.error
    &&& j.updated_at == now
}

/// Moving the file at `relative` failed with `e` at `now`: the `move` step
/// and the job failed, the job's error naming the file, the other steps
/// untouched.
pub open spec fn move_failed(j0: Job, j: Job, relative: Seq<char>, e: Error, now: i64) -> bool {
    &&& j.steps@[0] == j0.steps@[0]
    &&& forall|x: int| 2 <= x < j0.steps@.len() ==> #[trigger] j.steps@[x] == j0.steps@[x]
    &&& j.steps@[1].state == StepState::Failed
    &&& j.steps@[1].error matches Some(t) && t@ == error_text(e)
    &&& j.state == JobState::Failed
    &&& j.error matches Some(t) && t@ == relative + ": "@ + error_text(e)
    &&& j.updated_at == now
}

/// How [`organize_start`] begins organizing `n` files.
#[verifier::opaque]
pub open spec fn start_spec(j0: Job, j: Job, n: nat, now: i64, a: OrganizeAction) -> bool {
    &&& same_frame(j0, j)
    &&& if n > 0 {
        a == OrganizeAction::Move(0) && move_running(j0, j, now)
    } else {
        a == OrganizeAction::Done && job_completed(j0, j, j0.steps@, now)
    }
}

/// How [`organize_next`] goes on after the file at `i` was moved with the
/// outcome `moved`.
#[verifier::opaque]
pub open spec fn next_spec(
    j0: Job,
    j: Job,
    files: Seq<(String, String)>,
    i: int,
    moved: Result<(), Error>,
    now: i64,
    a: OrganizeAction,
) -> bool {
    &&& same_frame(j0, j)
    &&& match moved {
        Err(e) => a == OrganizeAction::Stop(e) && move_failed(j0, j, files[i].0@, e, now),
        Ok(()) => {
            let done1 = j0.steps@.update(
                1,
                Step { state: StepState::Completed, completed_at: Some(now), ..j0.steps@[1] },
            );
            if i + 1 < files.len() {
                &&& a == OrganizeAction::Move((i + 1) as usize)
                &&& j.steps@ == done1.update(
                    1,
                    Step { state: StepState::Running, started_at: Some(now), ..done1[1] },
                )
                &&& j.state == j0.state
                &&& j.error == j0.error
                &&& j.updated_at == now
            } else {
                a == OrganizeAction::Done && job_completed(j0, j, done1, now)
            }
        },
    }
}

/// Begins organizing the listed files: the `move` step runs for the first
/// one, or, with none, the job completes at once.
pub fn organize_start(job: &mut Job, files: &Vec<(String, String)>, now: i64) -> (a: OrganizeAction)
    requires
        old(job).steps@.len() >= 2,
    ensures
        start_spec(*old(job), *final(job), files@.len(), now, a),
{
    proof {
        reveal(start_spec);
    }
    if files.len() > 0 {
        move_started(job, now);
        OrganizeAction::Move(0)
    } else {
        organize_completed(job, now);
        OrganizeAction::Done
    }
}

/// Records how moving the file at `i` went and decides what comes next: a
/// failure fails the job and stops; a success moves on to the next file,
/// or, after the last one, completes the job.
pub fn organize_next(
    job: &mut Job,
    files: &Vec<(String, String)>,
    i: usize,
    moved: Result<(), Error>,
    now: i64,
) -> (a: OrganizeAction)
    requires
        old(job).steps@.len() >= 2,
        i < files@.len(),
    ensures
        next_spec(*old(job), *final(job), files@, i as int, moved, now, a),
{
    proof {
        reveal(next_spec);
    }
    let ghost j0 = *job;
    match move_finished(job, files[i].0.as_str(), moved, now) {
        Err(e) => {
            assert(move_failed(j0, *job, files@[i as int].0@, e, now));
            OrganizeAction::Stop(e)
        },
        Ok(()) => {
            let ghost done1 = j0.steps@.update(
                1,
                Step { state: StepState::Completed, completed_at: Some(now), ..j0.steps@[1] },
            );
            assert(job.steps@ =~= done1);
            if i < files.len() - 1 {
                move_started(job, now);
                OrganizeAction::Move(i + 1)
            } else {
                organize_completed(job, now);
                OrganizeAction::Done
            }
        },
    }
}

/// The facts of one start that a whole run needs.
proof fn lemma_start_facts(j0: Job, j: Job, n: nat, now: i64, a: OrganizeAction)
    requires
        j0.steps@.len() >= 2,
        start_spec(j0, j, n, now, a),
    ensures
        same_frame(j0, j),
        n > 0 ==> a == OrganizeAction::Move(0) && j.steps@[1].state == StepState::Running,
        n == 0 ==> a == OrganizeAction::Done && j.state == JobState::Completed && j.steps@[0].state
            == StepState::Completed,
{
    reveal(start_spec);
}

/// The facts of one step that a whole run needs.
proof fn lemma_next_facts(
    j0: Job,
    j: Job,
    files: Seq<(String, String)>,
    i: int,
    moved: Result<(), Error>,
    now: i64,
    a: OrganizeAction,
)
    requires
        j0.steps@.len() >= 2,
        0 <= i < files.len(),
        next_spec(j0, j, files, i, moved, now, a),
    ensures
        same_frame(j0, j),
        moved matches Err(e) ==> {
            &&& a == OrganizeAction::Stop(e)
            &&& j.state == JobState::Failed
            &&& j.steps@[1].state == StepState::Failed
            &&& j.error matches Some(t) && t@ == files[i].0@ + ": "@ + error_text(e)
        },
        moved is Ok && i + 1 < files.len() ==> a == OrganizeAction::Move((i + 1) as usize)
            && j.steps@[1].state == StepState::Running,
        moved is Ok && i + 1 >= files.len() ==> {
            &&& a == OrganizeAction::Done
            &&& j.state == JobState::Completed
            &&& j.steps@[0].state == StepState::Completed
            &&& j.steps@[1].state == StepState::Completed
        },
{
    reveal(next_spec);
}

/// The call after the `t`-th action of a run: that action asked to move a
/// file, and [`organize_next`] went on from there with the `t`-th move.
pub open spec fn organize_step(
    jobs: Seq<Job>,
    actions: Seq<OrganizeAction>,
    files: Seq<(String, String)>,
    moves: Seq<Result<(), Error>>,
    nows: Seq<i64>,
    t: int,
) -> bool {
    actions[t - 1] matches OrganizeAction::Move(i) && next_spec(
        jobs[t],
        jobs[t + 1],
        files,
        i as int,
        moves[t - 1],
        nows[t],
        actions[t],
    )
}

/// The first `n` calls of a run, by induction on `n`.
#[verifier::spinoff_prover]
proof fn lemma_organize_upto(
    jobs: Seq<Job>,
    actions: Seq<OrganizeAction>,
    files: Seq<(String, String)>,
    moves: Seq<Result<(), Error>>,
    nows: Seq<i64>,
    n: int,
)
    requires
        1 <= n <= actions.len(),
        jobs.len() == actions.len() + 1,
        moves.len() + 1 == actions.len(),
        nows.len() == actions.len(),
        jobs[0].steps@.len() >= 2,
        files.len() <= usize::MAX,
        start_spec(jobs[0], jobs[1], files.len(), nows[0], actions[0]),
        forall|t: int| 1 <= t < actions.len() ==> #[trigger] organize_step(jobs, actions, files, moves, nows, t),
    ensures
        same_frame(jobs[0], jobs[n]),
        forall|t: int| 0 <= t < n - 1 ==> (#[trigger] actions[t] matches OrganizeAction::Move(i) && i == t),
        forall|t: int| 0 <= t < n - 2 ==> (#[trigger] moves[t]) is Ok,
        !(actions[n - 1] is Stop) ==> forall|t: int| 0 <= t < n - 1 ==> (#[trigger] moves[t]) is Ok,
        actions[n - 1] matches OrganizeAction::Move(i) ==> i == n - 1 && i < files.len()
            && jobs[n].steps@[1].state == StepState::Running,
        actions[n - 1] is Done ==> {
            &&& n - 1 == files.len()
            &&& jobs[n].state == JobState::Completed
            &&& jobs[n].steps@[0].state == StepState::Completed
            &&& files.len() > 0 ==> jobs[n].steps@[1].state == StepState::Completed
        },
        actions[n - 1] matches OrganizeAction::Stop(e) ==> {
            &&& 1 <= n - 1 <= files.len()
            &&& moves[n - 2] == Err::<(), Error>(e)
            &&& jobs[n].state == JobState::Failed
            &&& jobs[n].steps@[1].state == StepState::Failed
            &&& jobs[n].error matches Some(t) && t@ == files[n - 2].0@ + ": "@ + error_text(e)
        },
    decreases n,
{
    if n == 1 {
        lemma_start_facts(jobs[0], jobs[1], files.len(), nows[0], actions[0]);
    } else {
        lemma_organize_upto(jobs, actions, files, moves, nows, n - 1);
        assert(organize_step(jobs, actions, files, moves, nows, n - 1));
        assert(actions[n - 2] matches OrganizeAction::Move(i) && i == n - 2);
        assert(next_spec(jobs[n - 1], jobs[n], files, n - 2, moves[n - 2], nows[n - 1], actions[n - 1]));
        lemma_next_facts(jobs[n - 1], jobs[n], files, n - 2, moves[n - 2], nows[n - 1], actions[n - 1]);
    }
}

/// A whole organize run: [`organize_start`], then [`organize_next`] after
/// each move, with whatever each move gave. The files are moved one by one
/// in list order, each at most once. When the run is done every move went
/// well, every file was moved, and the job and both its steps completed;
/// when it stops, the last move failed and all before it went well, the job
/// and its `move` step failed with the error naming that file, and nothing
/// more is moved.
pub proof fn law_organize_run(
    jobs: Seq<Job>,
    actions: Seq<OrganizeAction>,
    files: Seq<(String, String)>,
    moves: Seq<Result<(), Error>>,
    nows: Seq<i64>,
)
    requires
        actions.len() >= 1,
        jobs.len() == actions.len() + 1,
        moves.len() + 1 == actions.len(),
        nows.len() == actions.len(),
        jobs[0].steps@.len() >= 2,
        files.len() <= usize::MAX,
        start_spec(jobs[0], jobs[1], files.len(), nows[0], actions[0]),
        forall|t: int| 1 <= t < actions.len() ==> #[trigger] organize_step(jobs, actions, files, moves, nows, t),
    ensures
        same_frame(jobs[0], jobs.last()),
        forall|t: int| 0 <= t < actions.len() - 1 ==> (#[trigger] actions[t] matches OrganizeAction::Move(i) && i == t),
        forall|t: int| 0 <= t < moves.len() - 1 ==> (#[trigger] moves[t]) is Ok,
        !(actions.last() is Stop) ==> forall|t: int| 0 <= t < moves.len() ==> (#[trigger] moves[t]) is Ok,
        actions.last() matches OrganizeAction::Move(i) ==> i == moves.len() && i < files.len()
            && jobs.last().steps@[1].state == StepState::Running,
        actions.last() is Done ==> {
            &&& moves.len() == files.len()
            &&& forall|t: int| 0 <= t < moves.len() ==> (#[trigger] moves[t]) is Ok
            &&& jobs.last().state == JobState::Completed
            &&& jobs.last().steps@[0].state == StepState::Completed
            &&& files.len() > 0 ==> jobs.last().steps@[1].state == StepState::Completed
        },
        actions.last() matches OrganizeAction::Stop(e) ==> {
            &&& 1 <= moves.len() <= files.len()
            &&& moves.last() == Err::<(), Error>(e)
            &&& jobs.last().state == JobState::Failed
            &&& jobs.last().steps@[1].state == StepState::Failed
            &&& jobs.last().error matches Some(t) && t@ == files[moves.len() - 1].0@ + ": "@ + error_text(e)
        },
{
    lemma_organize_upto(jobs, actions, files, moves, nows, actions.len() as int);
}

/// The key a transfer is stored under: its identifier's text.
pub fn transfer_key(id: &TransferId) -> (s: String)
    ensures
        s@ == uuid_text(id.0),
{
    id.to_string()
}

/// Transfer keys name transfers one to one: two transfers share a key
/// exactly when they are the same transfer, and a key parses back to its
/// transfer (see [`TransferId::parse_text`]).
pub proof fn law_transfer_key_distinct(a: TransferId, b: TransferId)
    ensures
        uuid_text(a.0) == uuid_text(b.0) <==> a == b,
{
    crate::ids::law_uuid_text_injective(a.0, b.0);
}

} // verus!
