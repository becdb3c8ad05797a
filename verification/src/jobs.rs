//! Post-processing job and step model.
//!
//! A transfer can spawn zero or more post-processing jobs; each job targets a
//! specific file within the transfer and runs an ordered, individually
//! observable and retryable list of steps. Times are Unix milliseconds.

use vstd::prelude::*;
use crate::ids::TransferId;

verus! {

/// The ordered pipeline steps.
#[derive(Debug, Clone, Copy, PartialEq, Eq, Structural, Hash)]
pub enum StepKind {
    Verify,
    Extract,
    Flatten,
    Rename,
    InspectMedia,
    Move,
    Copy,
    Hardlink,
    Cleanup,
    RunInstaller,
    CustomHook,
}

pub open spec fn step_kind_name(k: StepKind) -> Seq<char> {
    match k {
        StepKind::Verify => "verify"@,
        StepKind::Extract => "extract"@,
        StepKind::Flatten => "flatten"@,
        StepKind::Rename => "rename"@,
        StepKind::InspectMedia => "inspect_media"@,
        StepKind::Move => "move"@,
        StepKind::Copy => "copy"@,
        StepKind::Hardlink => "hardlink"@,
        StepKind::Cleanup => "cleanup"@,
        StepKind::RunInstaller => "run_installer"@,
        StepKind::CustomHook => "custom_hook"@,
    }
}

impl StepKind {
    pub fn as_str(&self) -> (s: &'static str)
        ensures
            s@ == step_kind_name(*self),
    {
        match self {
            StepKind::Verify => "verify",
            StepKind::Extract => "extract",
            StepKind::Flatten => "flatten",
            StepKind::Rename => "rename",
            StepKind::InspectMedia => "inspect_media",
            StepKind::Move => "move",
            StepKind::Copy => "copy",
            StepKind::Hardlink => "hardlink",
            StepKind::Cleanup => "cleanup",
            StepKind::RunInstaller => "run_installer",
            StepKind::CustomHook => "custom_hook",
        }
    }
}

/// State of a single step.
#[derive(Debug, Clone, Copy, PartialEq, Eq, Structural, Hash)]
pub enum StepState {
    Pending,
    Running,
    Completed,
    Failed,
    Skipped,
}

pub open spec fn step_state_name(s: StepState) -> Seq<char> {
    match s {
        StepState::Pending => "pending"@,
        StepState::Running => "running"@,
        StepState::Completed => "completed"@,
        StepState::Failed => "failed"@,
        StepState::Skipped => "skipped"@,
    }
}

impl StepState {
    pub fn as_str(&self) -> (s: &'static str)
        ensures
            s@ == step_state_name(*self),
    {
        match self {
            StepState::Pending => "pending",
            StepState::Running => "running",
            StepState::Completed => "completed",
            StepState::Failed => "failed",
            StepState::Skipped => "skipped",
        }
    }
}

/// State of a job.
#[derive(Debug, Clone, Copy, PartialEq, Eq, Structural, Hash)]
pub enum JobState {
    Pending,
    Running,
    Completed,
    Failed,
    Cancelled,
}

pub open spec fn job_state_name(s: JobState) -> Seq<char> {
    match s {
        JobState::Pending => "pending"@,
        JobState::Running => "running"@,
        JobState::Completed => "completed"@,
        JobState::Failed => "failed"@,
        JobState::Cancelled => "cancelled"@,
    }
}

impl JobState {
    pub fn as_str(&self) -> (s: &'static str)
        ensures
            s@ == job_state_name(*self),
    {
        match self {
            JobState::Pending => "pending",
            JobState::Running => "running",
            JobState::Completed => "completed",
            JobState::Failed => "failed",
            JobState::Cancelled => "cancelled",
        }
    }
}

/// A single step within a post-processing job.
#[derive(Debug, Clone)]
pub struct Step {
    pub index: u32,
    pub kind: StepKind,
    pub state: StepState,
    pub started_at: Option<i64>,
    pub completed_at: Option<i64>,
    pub error: Option<String>,
}

/// A post-processing job bound to a transfer.
#[derive(Debug, Clone)]
pub struct Job {
    pub id: u128,
    pub transfer_id: TransferId,
    /// The file (transfer file index/path) this job targets.
    pub target: String,
    pub state: JobState,
    pub steps: Vec<Step>,
    pub created_at: i64,
    pub updated_at: i64,
    pub error: Option<String>,
}

} // verus!
