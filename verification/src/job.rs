//! Jobs, their outcomes, and what the core asks its surroundings to do.

use vstd::prelude::*;

verus! {

/// One attempt at transcoding one path.
#[derive(Debug)]
pub struct Job {
    /// Unique; later jobs have larger identifiers.
    pub id: u64,
    pub path: String,
    /// 1 for the first attempt of a settle cycle, one more for each retry.
    pub attempt: u64,
    pub enqueued_at: u64,
}

/// Mathematical content of a [`Job`].
pub struct JobView {
    pub id: u64,
    pub path: Seq<char>,
    pub attempt: u64,
    pub enqueued_at: u64,
}

impl View for Job {
    type V = JobView;

    open spec fn view(&self) -> JobView {
        JobView { id: self.id, path: self.path@, attempt: self.attempt, enqueued_at: self.enqueued_at }
    }
}

impl Job {
    /// A copy of this job.
    pub fn duplicate(&self) -> (j: Job)
        ensures
            j@ == self@,
    {
        Job { id: self.id, path: self.path.clone(), attempt: self.attempt, enqueued_at: self.enqueued_at }
    }
}

/// The view of an optional job.
pub open spec fn job_opt_view(j: Option<Job>) -> Option<JobView> {
    match j {
        Some(x) => Some(x@),
        None => None,
    }
}

/// The views of a sequence of jobs.
pub open spec fn job_views(s: Seq<Job>) -> Seq<JobView> {
    Seq::new(s.len(), |i: int| s[i]@)
}

/// How an attempt ended, without the details.
#[derive(Clone, Copy, Debug, PartialEq, Eq, Structural)]
pub enum ResultKind {
    Success,
    /// Worth another attempt: the resource was busy, the operation timed out, or the
    /// worker itself failed.
    TransientFailure,
    /// A definitive rejection of the input.
    PermanentFailure,
}

/// How an attempt ended.
#[derive(Debug)]
pub enum JobResult {
    /// With the path of the output.
    Success(String),
    /// With the reason.
    TransientFailure(String),
    /// With the reason.
    PermanentFailure(String),
}

impl JobResult {
    /// The kind of this result.
    pub open spec fn kind_of(self) -> ResultKind {
        match self {
            JobResult::Success(_) => ResultKind::Success,
            JobResult::TransientFailure(_) => ResultKind::TransientFailure,
            JobResult::PermanentFailure(_) => ResultKind::PermanentFailure,
        }
    }

    /// The kind of this result.
    pub fn kind(&self) -> (k: ResultKind)
        ensures
            k == self.kind_of(),
    {
        match self {
            JobResult::Success(_) => ResultKind::Success,
            JobResult::TransientFailure(_) => ResultKind::TransientFailure,
            JobResult::PermanentFailure(_) => ResultKind::PermanentFailure,
        }
    }
}

/// What a worker hands back for one attempt.
#[derive(Debug)]
pub struct JobOutcome {
    pub job_id: u64,
    pub result: JobResult,
    /// Milliseconds the attempt took.
    pub duration: u64,
}

/// Where a path's settle cycle ended.
#[derive(Clone, Copy, Debug, PartialEq, Eq, Structural)]
pub enum FinalState {
    Success,
    Failed,
}

/// What an observer is told when a settle cycle ends.
#[derive(Debug)]
pub struct OutcomeReport {
    pub path: String,
    pub final_state: FinalState,
    /// Milliseconds the last attempt took.
    pub duration: u64,
    /// Attempts made in this cycle.
    pub attempts: u64,
}

/// What the core asks its surroundings to do after a step.
#[derive(Debug)]
pub enum Action {
    /// Call back with the settle timer of `path` at `due`; replaces any earlier one.
    ArmSettleTimer { path: String, due: u64 },
    /// Drop every timer of `path`.
    CancelTimers { path: String },
    /// Call back with the retry timer of `path` at `due`.
    ArmRetryTimer { path: String, due: u64 },
    /// Tell the observer.
    Report(OutcomeReport),
}

/// Mathematical content of an [`Action`].
pub enum ActionView {
    ArmSettleTimer { path: Seq<char>, due: u64 },
    CancelTimers { path: Seq<char> },
    ArmRetryTimer { path: Seq<char>, due: u64 },
    Report { path: Seq<char>, final_state: FinalState, duration: u64, attempts: u64 },
}

impl View for Action {
    type V = ActionView;

    open spec fn view(&self) -> ActionView {
        match *self {
            Action::ArmSettleTimer { path, due } => ActionView::ArmSettleTimer { path: path@, due },
            Action::CancelTimers { path } => ActionView::CancelTimers { path: path@ },
            Action::ArmRetryTimer { path, due } => ActionView::ArmRetryTimer { path: path@, due },
            Action::Report(r) => ActionView::Report {
                path: r.path@,
                final_state: r.final_state,
                duration: r.duration,
                attempts: r.attempts,
            },
        }
    }
}

/// The view of an optional action.
pub open spec fn action_opt_view(a: Option<Action>) -> Option<ActionView> {
    match a {
        Some(x) => Some(x@),
        None => None,
    }
}

/// What became of the job at the head of the queue.
#[derive(Debug)]
pub enum Start {
    /// The job is now running on `worker`: transcode its path.
    Run { worker: usize, job: Job },
    /// The job left the queue without running: its path was removed or changed again
    /// after it was enqueued.
    Skipped(Job),
    /// No job is waiting, or no worker is free.
    Nothing,
}

/// Mathematical content of a [`Start`].
pub enum StartView {
    Run { worker: int, job: JobView },
    Skipped(JobView),
    Nothing,
}

impl View for Start {
    type V = StartView;

    open spec fn view(&self) -> StartView {
        match *self {
            Start::Run { worker, job } => StartView::Run { worker: worker as int, job: job@ },
            Start::Skipped(job) => StartView::Skipped(job@),
            Start::Nothing => StartView::Nothing,
        }
    }
}

} // verus!
