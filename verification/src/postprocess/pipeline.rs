//! The observable, retryable step pipeline of a post-processing job.
//!
//! The pipeline is a state machine over a [`Job`]: [`Pipeline::begin`]
//! starts at the first step that has not completed, and
//! [`Pipeline::step_finished`] records how the outside work of a step went
//! and moves on. Steps whose outcome is decided here (a denied installer, a
//! custom hook, an unsafe rename target, a cleanup with nothing to remove)
//! are settled without outside work.

use vstd::prelude::*;
use crate::common::Error;
use crate::jobs::{Job, JobState, Step, StepKind, StepState};
use crate::paths::{file_name, file_name_of, join};
use crate::text::{chars_of, replace_char, string_of};
use crate::postprocess::extract::{sanitize_entry_path, unsafe_entry};

verus! {

/// Whether installers found in downloads may be launched.
#[derive(Debug, Clone, Copy, PartialEq, Eq, Structural)]
pub enum InstallerPolicy {
    Deny,
    Ask,
    Allow,
}

impl Default for InstallerPolicy {
    fn default() -> (p: Self)
        ensures
            p == InstallerPolicy::Deny,
    {
        InstallerPolicy::Deny
    }
}

/// Runs the steps of post-processing jobs.
#[derive(Debug, Clone, Copy)]
pub struct Pipeline {
    pub installer_policy: InstallerPolicy,
}

impl Pipeline {
    /// A pipeline that denies installers.
    pub fn new() -> (p: Self)
        ensures
            p.installer_policy == InstallerPolicy::Deny,
    {
        Pipeline { installer_policy: InstallerPolicy::Deny }
    }
}

/// The first step at or after `i` that has not completed, or the length.
pub open spec fn first_incomplete(steps: Seq<Step>, i: int) -> int
    decreases steps.len() - i,
{
    if i < 0 || i >= steps.len() {
        steps.len() as int
    } else if steps[i].state != StepState::Completed {
        i
    } else {
        first_incomplete(steps, i + 1)
    }
}

/// Where a job resumes: the first step that has not completed.
pub fn resume_from(job: &Job) -> (r: Option<usize>)
    ensures
        match r {
            Some(i) => i < job.steps@.len() && job.steps@[i as int].state != StepState::Completed
                && forall|j: int| 0 <= j < i ==> #[trigger] job.steps@[j].state == StepState::Completed,
            None => forall|j: int|
                0 <= j < job.steps@.len() ==> #[trigger] job.steps@[j].state == StepState::Completed,
        },
{
    let mut i: usize = 0;
    while i < job.steps.len()
        invariant
            i <= job.steps@.len(),
            forall|j: int| 0 <= j < i ==> #[trigger] job.steps@[j].state == StepState::Completed,
        decreases job.steps.len() - i,
    {
        if job.steps[i].state != StepState::Completed {
            return Some(i);
        }
        i = i + 1;
    }
    None
}

/// Work that a step needs from the outside world.
#[derive(Debug, Clone)]
pub enum StepWork {
    /// Check that `path` exists and is not empty; report `Absent` if not.
    Verify { path: String },
    /// Report `Unsupported` when the extractor does not handle `archive`;
    /// otherwise extract it into `dest`.
    Extract { archive: String, dest: String },
    /// Move the entries of each subdirectory of `dir` up into `dir` and
    /// remove the emptied subdirectory.
    Flatten { dir: String },
    /// Rename `from` to `to`.
    Rename { from: String, to: String },
    /// Probe the media file at `path`; how the probe goes does not matter.
    Probe { path: String },
    /// Move, copy or hard-link (as `mode` says) `from` to `to`, then report
    /// `Outside` when `to` does not lie within `root`.
    Place { mode: StepKind, from: String, to: String, root: String },
    /// Remove the file at `path`; how the removal goes does not matter.
    Remove { path: String },
    /// Launch the executable at `path`.
    Launch { path: String },
}

/// How the outside work of a step went.
#[derive(Debug, Clone)]
pub enum StepReport {
    Done,
    /// The file to verify is missing or empty.
    Absent,
    /// The extractor does not handle the archive.
    Unsupported,
    /// The placed file is not within the destination root.
    Outside,
    Failed(Error),
}

/// What the pipeline asks for next.
#[derive(Debug)]
pub enum RunAction {
    /// Perform `work` for the step at `index`, then call
    /// [`Pipeline::step_finished`].
    Work { index: usize, work: StepWork },
    /// The job is over, with this result.
    Finished(Result<(), Error>),
}

/// Whether the work's outcome is ignored.
pub open spec fn outcome_ignored(w: StepWork) -> bool {
    w is Probe || w is Remove
}

/// The result a step gets from its work and the report on it.
pub open spec fn outcome_spec(w: StepWork, r: StepReport) -> Result<(), Error> {
    if outcome_ignored(w) {
        Ok(())
    } else {
        match r {
            StepReport::Done => Ok(()),
            StepReport::Absent => Err(Error::ExtractionFailed),
            StepReport::Unsupported => Err(Error::ExtractionFailed),
            StepReport::Outside => Err(Error::UnsafePath),
            StepReport::Failed(e) => Err(e),
        }
    }
}

/// The result of the step's outside work.
pub fn outcome_of(work: &StepWork, report: StepReport) -> (r: Result<(), Error>)
    ensures
        r == outcome_spec(*work, report),
{
    match work {
        StepWork::Probe { .. } => Ok(()),
        StepWork::Remove { .. } => Ok(()),
        _ => match report {
            StepReport::Done => Ok(()),
            StepReport::Absent => Err(Error::ExtractionFailed),
            StepReport::Unsupported => Err(Error::ExtractionFailed),
            StepReport::Outside => Err(Error::UnsafePath),
            StepReport::Failed(e) => Err(e),
        },
    }
}

/// A step settled here, or the outside work it needs.
pub enum StepPlan {
    Settled(Result<(), Error>),
    Outside(StepWork),
}

/// Some earlier step extracted an archive.
pub open spec fn extracted_before(steps: Seq<Step>, i: int) -> bool {
    exists|j: int|
        0 <= j < i && #[trigger] steps[j].kind == StepKind::Extract && steps[j].state
            == StepState::Completed
}

/// What the step at `i` of a job with these steps and target needs, with
/// the given work and destination directories.
pub open spec fn plan_spec(
    policy: InstallerPolicy,
    steps: Seq<Step>,
    target: Seq<char>,
    i: int,
    work_dir: Seq<char>,
    dest_dir: Seq<char>,
) -> StepPlanView {
    let src = join(work_dir, target);
    match steps[i].kind {
        StepKind::Verify => StepPlanView::Verify { path: src },
        StepKind::Extract => StepPlanView::Extract { archive: src, dest: dest_dir },
        StepKind::Flatten => StepPlanView::Flatten { dir: work_dir },
        StepKind::Rename => if unsafe_entry(target) {
            StepPlanView::Settled(Err(Error::UnsafePath))
        } else if join(work_dir, replace_char(target, '\\', '/')) == src {
            StepPlanView::Settled(Ok(()))
        } else {
            StepPlanView::Rename { from: src, to: join(work_dir, replace_char(target, '\\', '/')) }
        },
        StepKind::InspectMedia => StepPlanView::Probe { path: src },
        StepKind::Move | StepKind::Copy | StepKind::Hardlink => StepPlanView::Place {
            mode: steps[i].kind,
            from: src,
            to: join(
                dest_dir,
                match file_name(target) {
                    Some(n) => n,
                    None => target,
                },
            ),
            root: dest_dir,
        },
        StepKind::Cleanup => if extracted_before(steps, i) {
            StepPlanView::Remove { path: src }
        } else {
            StepPlanView::Settled(Ok(()))
        },
        StepKind::RunInstaller => if policy != InstallerPolicy::Allow {
            StepPlanView::Settled(Err(Error::ProcessLaunchDenied))
        } else {
            StepPlanView::Launch { path: src }
        },
        StepKind::CustomHook => StepPlanView::Settled(Err(Error::ProcessLaunchDenied)),
    }
}

/// A [`StepPlan`] with its texts as character sequences.
pub enum StepPlanView {
    Settled(Result<(), Error>),
    Verify { path: Seq<char> },
    Extract { archive: Seq<char>, dest: Seq<char> },
    Flatten { dir: Seq<char> },
    Rename { from: Seq<char>, to: Seq<char> },
    Probe { path: Seq<char> },
    Place { mode: StepKind, from: Seq<char>, to: Seq<char>, root: Seq<char> },
    Remove { path: Seq<char> },
    Launch { path: Seq<char> },
}

pub open spec fn work_view(w: StepWork) -> StepPlanView {
    match w {
        StepWork::Verify { path } => StepPlanView::Verify { path: path@ },
        StepWork::Extract { archive, dest } => StepPlanView::Extract { archive: archive@, dest: dest@ },
        StepWork::Flatten { dir } => StepPlanView::Flatten { dir: dir@ },
        StepWork::Rename { from, to } => StepPlanView::Rename { from: from@, to: to@ },
        StepWork::Probe { path } => StepPlanView::Probe { path: path@ },
        StepWork::Place { mode, from, to, root } => StepPlanView::Place {
            mode,
            from: from@,
            to: to@,
            root: root@,
        },
        StepWork::Remove { path } => StepPlanView::Remove { path: path@ },
        StepWork::Launch { path } => StepPlanView::Launch { path: path@ },
    }
}

pub open spec fn plan_view(p: StepPlan) -> StepPlanView {
    match p {
        StepPlan::Settled(r) => StepPlanView::Settled(r),
        StepPlan::Outside(w) => work_view(w),
    }
}

} // verus!

verus! {

/// The step once started at `now`.
pub open spec fn begun(s: Step, now: i64) -> Step {
    Step { state: StepState::Running, started_at: Some(now), ..s }
}

/// The step once completed at `now`.
pub open spec fn completed(s: Step, now: i64) -> Step {
    Step { state: StepState::Completed, completed_at: Some(now), ..s }
}

/// `n` is the step `s` marked failed with the error `e`.
pub open spec fn failed_with(n: Step, s: Step, e: Error) -> bool {
    &&& n.index == s.index
    &&& n.kind == s.kind
    &&& n.state == StepState::Failed
    &&& n.started_at == s.started_at
    &&& n.completed_at == s.completed_at
    &&& n.error matches Some(t) && t@ == crate::common::error_text(e)
}

/// `j` has a job's identity, target and creation time from `o`.
pub open spec fn same_job(j: Job, o: Job) -> bool {
    &&& j.id == o.id
    &&& j.transfer_id == o.transfer_id
    &&& j.target == o.target
    &&& j.created_at == o.created_at
    &&& j.steps@.len() == o.steps@.len()
}

/// The steps `n` that the steps `o` become when those in `start..k` are
/// started and settled successfully at `now`, the others unchanged.
pub open spec fn ran_through(
    p: Pipeline,
    n: Seq<Step>,
    o: Seq<Step>,
    target: Seq<char>,
    start: int,
    k: int,
    now: i64,
    wd: Seq<char>,
    dd: Seq<char>,
) -> bool {
    &&& n.len() == o.len()
    &&& forall|x: int| 0 <= x < start ==> #[trigger] n[x] == o[x]
    &&& forall|x: int|
        start <= x < k ==> #[trigger] n[x] == completed(begun(o[x], now), now) && plan_spec(
            p.installer_policy,
            n,
            target,
            x,
            wd,
            dd,
        ) == StepPlanView::Settled(Ok(()))
    &&& forall|x: int| k < x < o.len() ==> #[trigger] n[x] == o[x]
}

/// What running the steps `o` of the job `j0` from `start` at `now` leaves
/// in `j`, for the action `a` that it returns: the steps before the one
/// that needs outside work (or before the end, or before the one that
/// failed here) completed, that one started, and the job's state to match.
pub open spec fn ran_from(
    p: Pipeline,
    a: RunAction,
    j: Job,
    o: Seq<Step>,
    j0: Job,
    start: int,
    now: i64,
    wd: Seq<char>,
    dd: Seq<char>,
) -> bool {
    &&& same_job(j, j0)
    &&& o.len() == j0.steps@.len()
    &&& match a {
        RunAction::Work { index, work } => {
            &&& start <= index < o.len()
            &&& ran_through(p, j.steps@, o, j.target@, start, index as int, now, wd, dd)
            &&& j.steps@[index as int] == begun(o[index as int], now)
            &&& work_view(work) == plan_spec(p.installer_policy, j.steps@, j.target@, index as int, wd, dd)
            &&& j.state == j0.state
            &&& j.error == j0.error
            &&& j.updated_at == now
        },
        RunAction::Finished(Ok(())) => {
            &&& ran_through(p, j.steps@, o, j.target@, start, o.len() as int, now, wd, dd)
            &&& j.state == JobState::Completed
            &&& j.error == j0.error
            &&& j.updated_at == now
        },
        RunAction::Finished(Err(e)) => exists|k: int|
            {
                &&& start <= k < o.len()
                &&& ran_through(p, j.steps@, o, j.target@, start, k, now, wd, dd)
                &&& failed_with(#[trigger] j.steps@[k], begun(o[k], now), e)
                &&& plan_spec(p.installer_policy, j.steps@, j.target@, k, wd, dd) == StepPlanView::Settled(Err(e))
                &&& j.state == JobState::Failed
                &&& j.error matches Some(t) && t@ == crate::common::error_text(e)
                &&& j.updated_at == now
            },
    }
}

fn clone_text(o: &Option<String>) -> (r: Option<String>)
    ensures
        r == *o,
{
    match o {
        Some(s) => Some(s.clone()),
        None => None,
    }
}

fn begin_step(job: &mut Job, i: usize, now: i64)
    requires
        i < old(job).steps@.len(),
    ensures
        final(job).steps@ == old(job).steps@.update(i as int, begun(old(job).steps@[i as int], now)),
        same_job(*final(job), *old(job)),
        final(job).state == old(job).state,
        final(job).error == old(job).error,
        final(job).updated_at == now,
{
    let s = Step {
        index: job.steps[i].index,
        kind: job.steps[i].kind,
        state: StepState::Running,
        started_at: Some(now),
        completed_at: job.steps[i].completed_at,
        error: clone_text(&job.steps[i].error),
    };
    job.steps.set(i, s);
    job.updated_at = now;
}

fn complete_step(job: &mut Job, i: usize, now: i64)
    requires
        i < old(job).steps@.len(),
    ensures
        final(job).steps@ == old(job).steps@.update(i as int, completed(old(job).steps@[i as int], now)),
        same_job(*final(job), *old(job)),
        final(job).state == old(job).state,
        final(job).error == old(job).error,
        final(job).updated_at == old(job).updated_at,
{
    let s = Step {
        index: job.steps[i].index,
        kind: job.steps[i].kind,
        state: StepState::Completed,
        started_at: job.steps[i].started_at,
        completed_at: Some(now),
        error: clone_text(&job.steps[i].error),
    };
    job.steps.set(i, s);
}

fn fail_step(job: &mut Job, i: usize, e: &Error)
    requires
        i < old(job).steps@.len(),
    ensures
        final(job).steps@.len() == old(job).steps@.len(),
        failed_with(final(job).steps@[i as int], old(job).steps@[i as int], *e),
        forall|x: int| 0 <= x < old(job).steps@.len() && x != i ==> #[trigger] final(job).steps@[x] == old(job).steps@[x],
        same_job(*final(job), *old(job)),
        final(job).state == JobState::Failed,
        final(job).error matches Some(t) && t@ == crate::common::error_text(*e),
        final(job).updated_at == old(job).updated_at,
{
    let s = Step {
        index: job.steps[i].index,
        kind: job.steps[i].kind,
        state: StepState::Failed,
        started_at: job.steps[i].started_at,
        completed_at: job.steps[i].completed_at,
        error: Some(e.to_string()),
    };
    job.steps.set(i, s);
    job.state = JobState::Failed;
    job.error = Some(e.to_string());
}

} // verus!

verus! {

fn extracted_before_exec(steps: &Vec<Step>, i: usize) -> (b: bool)
    requires
        i <= steps@.len(),
    ensures
        b == extracted_before(steps@, i as int),
{
    let mut j: usize = 0;
    while j < i
        invariant
            j <= i <= steps@.len(),
            forall|x: int|
                0 <= x < j ==> !(#[trigger] steps@[x].kind == StepKind::Extract && steps@[x].state
                    == StepState::Completed),
        decreases i - j,
    {
        if steps[j].kind == StepKind::Extract && steps[j].state == StepState::Completed {
            assert(steps@[j as int].kind == StepKind::Extract);
            return true;
        }
        j = j + 1;
    }
    false
}

impl Pipeline {
    /// What the step at `i` needs: settled here, or outside work.
    pub fn plan_step(&self, job: &Job, i: usize, work_dir: &str, dest_dir: &str) -> (p: StepPlan)
        requires
            i < job.steps@.len(),
        ensures
            plan_view(p) == plan_spec(
                self.installer_policy,
                job.steps@,
                job.target@,
                i as int,
                work_dir@,
                dest_dir@,
            ),
    {
        let t = chars_of(job.target.as_str());
        let w = chars_of(work_dir);
        let d = chars_of(dest_dir);
        let src = crate::paths::join_chars(w.as_slice(), t.as_slice());
        match job.steps[i].kind {
            StepKind::Verify => StepPlan::Outside(StepWork::Verify { path: string_of(src.as_slice()) }),
            StepKind::Extract => StepPlan::Outside(
                StepWork::Extract { archive: string_of(src.as_slice()), dest: string_of(d.as_slice()) },
            ),
            StepKind::Flatten => StepPlan::Outside(StepWork::Flatten { dir: string_of(w.as_slice()) }),
            StepKind::Rename => match sanitize_entry_path(job.target.as_str(), work_dir) {
                Err(e) => StepPlan::Settled(Err(e)),
                Ok(safe) => {
                    let sc = chars_of(safe.as_str());
                    if crate::text::chars_eq(sc.as_slice(), src.as_slice()) {
                        StepPlan::Settled(Ok(()))
                    } else {
                        StepPlan::Outside(StepWork::Rename { from: string_of(src.as_slice()), to: safe })
                    }
                },
            },
            StepKind::InspectMedia => StepPlan::Outside(StepWork::Probe { path: string_of(src.as_slice()) }),
            StepKind::Move | StepKind::Copy | StepKind::Hardlink => {
                let name = match file_name_of(t.as_slice()) {
                    Some(n) => n,
                    None => chars_of(job.target.as_str()),
                };
                let to = crate::paths::join_chars(d.as_slice(), name.as_slice());
                StepPlan::Outside(
                    StepWork::Place {
                        mode: job.steps[i].kind,
                        from: string_of(src.as_slice()),
                        to: string_of(to.as_slice()),
                        root: string_of(d.as_slice()),
                    },
                )
            },
            StepKind::Cleanup => if extracted_before_exec(&job.steps, i) {
                StepPlan::Outside(StepWork::Remove { path: string_of(src.as_slice()) })
            } else {
                StepPlan::Settled(Ok(()))
            },
            StepKind::RunInstaller => if self.installer_policy != InstallerPolicy::Allow {
                StepPlan::Settled(Err(Error::ProcessLaunchDenied))
            } else {
                StepPlan::Outside(StepWork::Launch { path: string_of(src.as_slice()) })
            },
            StepKind::CustomHook => StepPlan::Settled(Err(Error::ProcessLaunchDenied)),
        }
    }
}

} // verus!

verus! {

/// The plan of a step depends only on its kind and the steps before it.
proof fn lemma_plan_same(
    p: InstallerPolicy,
    s1: Seq<Step>,
    s2: Seq<Step>,
    t: Seq<char>,
    x: int,
    wd: Seq<char>,
    dd: Seq<char>,
)
    requires
        0 <= x < s1.len(),
        s1.len() == s2.len(),
        s1[x].kind == s2[x].kind,
        forall|j: int| 0 <= j < x ==> #[trigger] s1[j] == s2[j],
    ensures
        plan_spec(p, s1, t, x, wd, dd) == plan_spec(p, s2, t, x, wd, dd),
{
    if extracted_before(s1, x) {
        let j = choose|j: int|
            0 <= j < x && #[trigger] s1[j].kind == StepKind::Extract && s1[j].state
                == StepState::Completed;
        assert(s2[j] == s1[j]);
        assert(extracted_before(s2, x));
    }
    if extracted_before(s2, x) {
        let j = choose|j: int|
            0 <= j < x && #[trigger] s2[j].kind == StepKind::Extract && s2[j].state
                == StepState::Completed;
        assert(s2[j] == s1[j]);
        assert(extracted_before(s1, x));
    }
}

proof fn lemma_plans_kept(
    p: InstallerPolicy,
    s1: Seq<Step>,
    s2: Seq<Step>,
    t: Seq<char>,
    n: int,
    wd: Seq<char>,
    dd: Seq<char>,
)
    requires
        0 <= n <= s1.len(),
        s1.len() == s2.len(),
        forall|j: int| 0 <= j < n ==> #[trigger] s1[j] == s2[j],
    ensures
        forall|x: int|
            0 <= x < n ==> #[trigger] plan_spec(p, s1, t, x, wd, dd) == plan_spec(p, s2, t, x, wd, dd),
{
    assert forall|x: int| 0 <= x < n implies #[trigger] plan_spec(p, s1, t, x, wd, dd) == plan_spec(
        p,
        s2,
        t,
        x,
        wd,
        dd,
    ) by {
        lemma_plan_same(p, s1, s2, t, x, wd, dd);
    }
}

impl Pipeline {
    /// Runs the steps from `start` at `now`: each is started, and those
    /// settled here are completed (or fail the job), until one needs
    /// outside work or the job is over.
    fn run_from(&self, job: &mut Job, start: usize, work_dir: &str, dest_dir: &str, now: i64) -> (a:
        RunAction)
        requires
            start <= old(job).steps@.len(),
        ensures
            ran_from(*self, a, *final(job), old(job).steps@, *old(job), start as int, now, work_dir@, dest_dir@),
    {
        let ghost o = job.steps@;
        let ghost j0 = *job;
        let mut i: usize = start;
        if start == job.steps.len() {
            job.state = JobState::Completed;
            job.updated_at = now;
            return RunAction::Finished(Ok(()));
        }
        loop
            invariant
                start <= i < o.len(),
                same_job(*job, j0),
                j0 == *old(job),
                o == j0.steps@,
                ran_through(*self, job.steps@, o, job.target@, start as int, i as int, now, work_dir@, dest_dir@),
                job.steps@[i as int] == o[i as int],
                job.state == j0.state,
                job.error == j0.error,
                i > start ==> job.updated_at == now,
            decreases o.len() - i,
        {
            let ghost before = job.steps@;
            begin_step(job, i, now);
            proof {
                lemma_plans_kept(self.installer_policy, job.steps@, before, job.target@, i as int, work_dir@, dest_dir@);
            }
            let plan = self.plan_step(job, i, work_dir, dest_dir);
            match plan {
                StepPlan::Outside(work) => {
                    proof {
                        assert(ran_through(*self, job.steps@, o, job.target@, start as int, i as int, now, work_dir@, dest_dir@));
                        assert(job.steps@[i as int] == begun(o[i as int], now));
                        assert(work_view(work) == plan_spec(self.installer_policy, job.steps@, job.target@, i as int, work_dir@, dest_dir@));
                    }
                    return RunAction::Work { index: i, work };
                },
                StepPlan::Settled(Err(e)) => {
                    let ghost begun_steps = job.steps@;
                    fail_step(job, i, &e);
                    proof {
                        lemma_plans_kept(self.installer_policy, job.steps@, begun_steps, job.target@, i as int, work_dir@, dest_dir@);
                        lemma_plan_same(self.installer_policy, job.steps@, begun_steps, job.target@, i as int, work_dir@, dest_dir@);
                        assert(ran_through(*self, job.steps@, o, job.target@, start as int, i as int, now, work_dir@, dest_dir@));
                        assert(failed_with(job.steps@[i as int], begun(o[i as int], now), e));
                    }
                    job.updated_at = now;
                    return RunAction::Finished(Err(e));
                },
                StepPlan::Settled(Ok(())) => {
                    let ghost begun_steps = job.steps@;
                    complete_step(job, i, now);
                    proof {
                        lemma_plans_kept(self.installer_policy, job.steps@, begun_steps, job.target@, i as int, work_dir@, dest_dir@);
                        lemma_plan_same(self.installer_policy, job.steps@, begun_steps, job.target@, i as int, work_dir@, dest_dir@);
                    }
                    if i >= job.steps.len() - 1 {
                        job.state = JobState::Completed;
                        job.updated_at = now;
                        return RunAction::Finished(Ok(()));
                    }
                    i = i + 1;
                },
            }
        }
    }
}

} // verus!

verus! {

proof fn lemma_first_incomplete(s: Seq<Step>, i: int, k: int)
    requires
        0 <= i <= k <= s.len(),
        forall|j: int| i <= j < k ==> #[trigger] s[j].state == StepState::Completed,
        k == s.len() || s[k].state != StepState::Completed,
    ensures
        first_incomplete(s, i) == k,
    decreases k - i,
{
    if i < k {
        lemma_first_incomplete(s, i + 1, k);
    }
}

/// What one call of [`Pipeline::step_finished`] on the step at `index` does:
/// a success completes the step and runs on from the next one; a failure
/// fails the step and the job with the error, and touches nothing else.
pub open spec fn finished_from(
    p: Pipeline,
    a: RunAction,
    j: Job,
    j0: Job,
    index: int,
    work: StepWork,
    report: StepReport,
    now: i64,
    wd: Seq<char>,
    dd: Seq<char>,
) -> bool {
    match outcome_spec(work, report) {
        Ok(()) => ran_from(
            p,
            a,
            j,
            j0.steps@.update(index, completed(j0.steps@[index], now)),
            j0,
            index + 1,
            now,
            wd,
            dd,
        ),
        Err(e) => {
            &&& a matches RunAction::Finished(Err(x)) && x == e
            &&& same_job(j, j0)
            &&& failed_with(j.steps@[index], j0.steps@[index], e)
            &&& forall|x: int| 0 <= x < j0.steps@.len() && x != index ==> #[trigger] j.steps@[x] == j0.steps@[x]
            &&& j.state == JobState::Failed
            &&& j.error matches Some(t) && t@ == crate::common::error_text(e)
            &&& j.updated_at == j0.updated_at
        },
    }
}

impl Pipeline {
    /// Starts (or resumes) a job at its first step that has not completed;
    /// with none left the job completes at once.
    pub fn begin(&self, job: &mut Job, work_dir: &str, dest_dir: &str, now: i64) -> (a: RunAction)
        ensures
            ran_from(
                *self,
                a,
                *final(job),
                old(job).steps@,
                *old(job),
                first_incomplete(old(job).steps@, 0),
                now,
                work_dir@,
                dest_dir@,
            ),
    {
        let start = match resume_from(job) {
            Some(i) => i,
            None => job.steps.len(),
        };
        proof {
            lemma_first_incomplete(job.steps@, 0, start as int);
        }
        self.run_from(job, start, work_dir, dest_dir, now)
    }

    /// Records how the outside work of the step at `index` went: a success
    /// completes the step and runs on; a failure fails the step and the
    /// job.
    pub fn step_finished(
        &self,
        job: &mut Job,
        index: usize,
        work: &StepWork,
        report: StepReport,
        work_dir: &str,
        dest_dir: &str,
        now: i64,
    ) -> (a: RunAction)
        requires
            index < old(job).steps@.len(),
        ensures
            finished_from(
                *self,
                a,
                *final(job),
                *old(job),
                index as int,
                *work,
                report,
                now,
                work_dir@,
                dest_dir@,
            ),
    {
        match outcome_of(work, report) {
            Ok(()) => {
                complete_step(job, index, now);
                let n = job.steps.len();
                assert(index < n);
                self.run_from(job, index + 1, work_dir, dest_dir, now)
            },
            Err(e) => {
                fail_step(job, index, &e);
                RunAction::Finished(Err(e))
            },
        }
    }
}

} // verus!

verus! {

/// Jobs are retryable from the step that failed: when the step at `i` fails
/// after every earlier step completed (as [`Pipeline::step_finished`]
/// leaves the job), beginning the job again resumes at that step, the
/// completed ones skipped.
pub proof fn law_retry_resumes_at_failed_step(s: Seq<Step>, after: Seq<Step>, i: int, e: Error)
    requires
        0 <= i < s.len(),
        after.len() == s.len(),
        forall|j: int| 0 <= j < i ==> #[trigger] s[j].state == StepState::Completed,
        failed_with(after[i], s[i], e),
        forall|x: int| 0 <= x < s.len() && x != i ==> #[trigger] after[x] == s[x],
    ensures
        first_incomplete(after, 0) == i,
{
    assert forall|j: int| 0 <= j < i implies #[trigger] after[j].state == StepState::Completed by {
        assert(after[j] == s[j]);
    }
    lemma_first_incomplete(after, 0, i);
}

} // verus!

verus! {

/// Mid-run, relative to the steps `o` the run began with and the step `s`
/// it began at: the steps before `s` untouched, those from `s` to `i`
/// completed, step `i` running (its outside work under way), the rest
/// untouched.
pub open spec fn progressed(n: Seq<Step>, o: Seq<Step>, s: int, i: int) -> bool {
    &&& n.len() == o.len()
    &&& 0 <= s <= i < o.len()
    &&& forall|x: int| 0 <= x < s ==> #[trigger] n[x] == o[x]
    &&& forall|x: int| s <= x < i ==> (#[trigger] n[x]).state == StepState::Completed
    &&& n[i].state == StepState::Running
    &&& forall|x: int| i < x < o.len() ==> #[trigger] n[x] == o[x]
}

/// Where a run stands after the action `a`: mid-run at the step that needs
/// outside work; or completed, every step from `s` on completed and the
/// earlier ones untouched; or failed with `e` at some step `k` from `s` on,
/// the steps from `s` to `k` completed and the others untouched.
pub open spec fn run_outcome(a: RunAction, j: Job, o: Seq<Step>, s: int) -> bool {
    let n = j.steps@;
    match a {
        RunAction::Work { index, .. } => progressed(n, o, s, index as int),
        RunAction::Finished(Ok(())) => {
            &&& j.state == JobState::Completed
            &&& n.len() == o.len()
            &&& forall|x: int| 0 <= x < s ==> #[trigger] n[x] == o[x]
            &&& forall|x: int| s <= x < o.len() ==> (#[trigger] n[x]).state == StepState::Completed
        },
        RunAction::Finished(Err(e)) => {
            &&& j.state == JobState::Failed
            &&& j.error matches Some(t) && t@ == crate::common::error_text(e)
            &&& n.len() == o.len()
            &&& exists|k: int|
                #![trigger n[k]]
                {
                    &&& s <= k < o.len()
                    &&& n[k].state == StepState::Failed
                    &&& n[k].error matches Some(t) && t@ == crate::common::error_text(e)
                    &&& forall|x: int| 0 <= x < s ==> #[trigger] n[x] == o[x]
                    &&& forall|x: int| s <= x < k ==> (#[trigger] n[x]).state == StepState::Completed
                    &&& forall|x: int| k < x < o.len() ==> #[trigger] n[x] == o[x]
                }
        },
    }
}

/// A run begun by [`Pipeline::begin`] starts at the first step that has
/// not completed, and what it returns is a run outcome from there.
pub proof fn law_run_begins(
    p: Pipeline,
    a: RunAction,
    j: Job,
    j0: Job,
    now: i64,
    wd: Seq<char>,
    dd: Seq<char>,
)
    requires
        ran_from(p, a, j, j0.steps@, j0, first_incomplete(j0.steps@, 0), now, wd, dd),
    ensures
        run_outcome(a, j, j0.steps@, first_incomplete(j0.steps@, 0)),
{
    let o = j0.steps@;
    let s = first_incomplete(o, 0);
    lemma_first_incomplete_range(o, 0);
    match a {
        RunAction::Work { index, .. } => {
            assert forall|x: int| s <= x < index implies (#[trigger] j.steps@[x]).state == StepState::Completed by {
                assert(j.steps@[x] == completed(begun(o[x], now), now));
            }
        },
        RunAction::Finished(Ok(())) => {
            assert forall|x: int| s <= x < o.len() implies (#[trigger] j.steps@[x]).state == StepState::Completed by {
                assert(j.steps@[x] == completed(begun(o[x], now), now));
            }
        },
        RunAction::Finished(Err(e)) => {
            let k = choose|k: int|
                {
                    &&& s <= k < o.len()
                    &&& ran_through(p, j.steps@, o, j.target@, s, k, now, wd, dd)
                    &&& failed_with(#[trigger] j.steps@[k], begun(o[k], now), e)
                    &&& plan_spec(p.installer_policy, j.steps@, j.target@, k, wd, dd) == StepPlanView::Settled(Err(e))
                    &&& j.state == JobState::Failed
                    &&& j.error matches Some(t) && t@ == crate::common::error_text(e)
                    &&& j.updated_at == now
                };
            assert forall|x: int| s <= x < k implies (#[trigger] j.steps@[x]).state == StepState::Completed by {
                assert(j.steps@[x] == completed(begun(o[x], now), now));
            }
            assert(j.steps@[k].state == StepState::Failed);
        },
    }
}

/// A run continues by [`Pipeline::step_finished`]: from mid-run at step
/// `i`, whatever the outside work reported, what it returns is again a run
/// outcome relative to the same beginning. With [`law_run_begins`] this
/// covers a whole run, however many steps need outside work.
pub proof fn law_run_continues(
    p: Pipeline,
    a: RunAction,
    j: Job,
    j0: Job,
    o: Seq<Step>,
    s: int,
    i: int,
    work: StepWork,
    report: StepReport,
    now: i64,
    wd: Seq<char>,
    dd: Seq<char>,
)
    requires
        progressed(j0.steps@, o, s, i),
        finished_from(p, a, j, j0, i, work, report, now, wd, dd),
    ensures
        run_outcome(a, j, o, s),
{
    let n0 = j0.steps@;
    match outcome_spec(work, report) {
        Ok(()) => {
            let o2 = n0.update(i, completed(n0[i], now));
            match a {
                RunAction::Work { index, .. } => {
                    assert forall|x: int| 0 <= x < s implies #[trigger] j.steps@[x] == o[x] by {
                        assert(j.steps@[x] == o2[x]);
                    }
                    assert forall|x: int| s <= x < index implies (#[trigger] j.steps@[x]).state
                        == StepState::Completed by {
                        if x <= i {
                            assert(j.steps@[x] == o2[x]);
                        } else {
                            assert(j.steps@[x] == completed(begun(o2[x], now), now));
                        }
                    }
                    assert forall|x: int| index < x < o.len() implies #[trigger] j.steps@[x] == o[x] by {
                        assert(j.steps@[x] == o2[x]);
                    }
                },
                RunAction::Finished(Ok(())) => {
                    assert forall|x: int| 0 <= x < s implies #[trigger] j.steps@[x] == o[x] by {
                        assert(j.steps@[x] == o2[x]);
                    }
                    assert forall|x: int| s <= x < o.len() implies (#[trigger] j.steps@[x]).state
                        == StepState::Completed by {
                        if x <= i {
                            assert(j.steps@[x] == o2[x]);
                        } else {
                            assert(j.steps@[x] == completed(begun(o2[x], now), now));
                        }
                    }
                },
                RunAction::Finished(Err(e)) => {
                    let k = choose|k: int|
                        {
                            &&& i + 1 <= k < o2.len()
                            &&& ran_through(p, j.steps@, o2, j.target@, i + 1, k, now, wd, dd)
                            &&& failed_with(#[trigger] j.steps@[k], begun(o2[k], now), e)
                            &&& plan_spec(p.installer_policy, j.steps@, j.target@, k, wd, dd)
                                == StepPlanView::Settled(Err(e))
                            &&& j.state == JobState::Failed
                            &&& j.error matches Some(t) && t@ == crate::common::error_text(e)
                            &&& j.updated_at == now
                        };
                    assert(j.steps@[k].state == StepState::Failed);
                    assert forall|x: int| 0 <= x < s implies #[trigger] j.steps@[x] == o[x] by {
                        assert(j.steps@[x] == o2[x]);
                    }
                    assert forall|x: int| s <= x < k implies (#[trigger] j.steps@[x]).state
                        == StepState::Completed by {
                        if x <= i {
                            assert(j.steps@[x] == o2[x]);
                        } else {
                            assert(j.steps@[x] == completed(begun(o2[x], now), now));
                        }
                    }
                    assert forall|x: int| k < x < o.len() implies #[trigger] j.steps@[x] == o[x] by {
                        assert(j.steps@[x] == o2[x]);
                    }
                },
            }
        },
        Err(e) => {
            assert(j.steps@[i].state == StepState::Failed);
            assert forall|x: int| 0 <= x < s implies #[trigger] j.steps@[x] == o[x] by {
                assert(j.steps@[x] == n0[x]);
            }
            assert forall|x: int| s <= x < i implies (#[trigger] j.steps@[x]).state == StepState::Completed by {
                assert(j.steps@[x] == n0[x]);
            }
            assert forall|x: int| i < x < o.len() implies #[trigger] j.steps@[x] == o[x] by {
                assert(j.steps@[x] == n0[x]);
            }
        },
    }
}

proof fn lemma_first_incomplete_range(s: Seq<Step>, i: int)
    requires
        0 <= i,
    ensures
        i <= first_incomplete(s, i) <= s.len() || (i > s.len() && first_incomplete(s, i) == s.len()),
    decreases s.len() - i,
{
    if i < s.len() && s[i].state == StepState::Completed {
        lemma_first_incomplete_range(s, i + 1);
    }
}

/// A whole run: [`Pipeline::begin`], then [`Pipeline::step_finished`] for
/// each step that asked for outside work, with whatever that work reported
/// and at whatever time. However many calls it takes, the last action is a
/// run outcome from the first step that had not completed when the run
/// began: mid-run at a running step, or completed with every step from
/// there completed, or failed at one step with the steps before it
/// completed, the earlier steps and the later ones untouched.
pub proof fn law_whole_run(
    p: Pipeline,
    jobs: Seq<Job>,
    actions: Seq<RunAction>,
    reports: Seq<StepReport>,
    nows: Seq<i64>,
    wd: Seq<char>,
    dd: Seq<char>,
)
    requires
        actions.len() >= 1,
        jobs.len() == actions.len() + 1,
        reports.len() + 1 == actions.len(),
        nows.len() == actions.len(),
        ran_from(p, actions[0], jobs[1], jobs[0].steps@, jobs[0], first_incomplete(jobs[0].steps@, 0), nows[0], wd, dd),
        forall|t: int|
            1 <= t < actions.len() ==> (actions[t - 1] matches RunAction::Work { index, work } && finished_from(
                p,
                #[trigger] actions[t],
                jobs[t + 1],
                jobs[t],
                index as int,
                work,
                reports[t - 1],
                nows[t],
                wd,
                dd,
            )),
    ensures
        run_outcome(actions.last(), jobs.last(), jobs[0].steps@, first_incomplete(jobs[0].steps@, 0)),
    decreases actions.len(),
{
    let m = actions.len() as int;
    let o = jobs[0].steps@;
    let s = first_incomplete(o, 0);
    if m == 1 {
        law_run_begins(p, actions[0], jobs[1], jobs[0], nows[0], wd, dd);
    } else {
        let pj = jobs.drop_last();
        let pa = actions.drop_last();
        let pr = reports.drop_last();
        let pn = nows.drop_last();
        assert forall|t: int| 1 <= t < pa.len() implies (pa[t - 1] matches RunAction::Work { index, work }
            && finished_from(p, #[trigger] pa[t], pj[t + 1], pj[t], index as int, work, pr[t - 1], pn[t], wd, dd)) by {
            assert(pa[t] == actions[t] && pa[t - 1] == actions[t - 1]);
            assert(pj[t + 1] == jobs[t + 1] && pj[t] == jobs[t] && pr[t - 1] == reports[t - 1] && pn[t] == nows[t]);
        }
        law_whole_run(p, pj, pa, pr, pn, wd, dd);
        assert(pj[0] == jobs[0] && pj.last() == jobs[m - 1] && pa.last() == actions[m - 2]);
        assert(actions[m - 2] matches RunAction::Work { .. });
        match actions[m - 2] {
            RunAction::Work { index, work } => {
                law_run_continues(
                    p,
                    actions[m - 1],
                    jobs[m],
                    jobs[m - 1],
                    o,
                    s,
                    index as int,
                    work,
                    reports[m - 2],
                    nows[m - 1],
                    wd,
                    dd,
                );
            },
            RunAction::Finished(_) => {},
        }
    }
}

} // verus!
