//! The pipeline as a state machine over mathematical values.
//!
//! A [`State`] holds the tracked paths, the queue in arrival order, the worker slots
//! and the next job identifier. Each kind of input has one step function that gives
//! the next state and, where there is one, the action to perform. The executable
//! dispatcher computes exactly these functions.
//!
//! Policy on duplicates: every event carries the time at which it was observed. For a
//! tracked path, a change that is not newer than the latest event already taken into
//! account tells nothing new and is ignored, as is a removal older than that event.
//! Every newer change counts as real and starts a new settle cycle.

use vstd::prelude::*;
use crate::backoff::{backoff_delay, due_after, elapsed, saturate};
use crate::config::ConfigView;
use crate::event::{EventKind, NormalizedEventView};
use crate::job::{ActionView, FinalState, JobView, ResultKind, StartView};
use crate::pool::{first_free, slot_of};
use crate::timers::{applied, TimerKind, TimerView};
use crate::tracker::{JobPhase, PathState, TrackedPath};

verus! {

/// Everything the pipeline remembers between two inputs.
#[verifier::ext_equal]
pub struct State {
    /// The record of every tracked path.
    pub paths: Map<Seq<char>, TrackedPath>,
    /// The jobs that wait for a worker, first arrival first.
    pub queue: Seq<JobView>,
    /// What each worker runs.
    pub slots: Seq<Option<JobView>>,
    /// The identifier the next job gets.
    pub next_id: u64,
}

/// Whether a change observed at `at` tells something new about a path with record `e`.
pub open spec fn is_news(e: TrackedPath, at: u64) -> bool {
    if e.state == PathState::Idle {
        at >= e.last_event_at
    } else {
        at > e.last_event_at
    }
}

/// The record after a change that counts: a new settle cycle begins, with no retries
/// used. A job in the queue or on a worker stays the path's job, and if it is running
/// its outcome will no longer be final; a retry that was only waiting is given up.
pub open spec fn changed(e: TrackedPath, at: u64) -> TrackedPath {
    let keeps_job = e.active_job is Some && e.phase != JobPhase::Backoff;
    TrackedPath {
        state: PathState::Pending,
        last_event_at: at,
        active_job: if keeps_job {
            e.active_job
        } else {
            None
        },
        phase: if keeps_job {
            e.phase
        } else {
            JobPhase::Queued
        },
        retry_count: 0,
        retry_due: 0,
        dirty: keeps_job && e.phase == JobPhase::Running,
    }
}

/// Until when the record of a path is kept after the end of its cycle was reported at
/// `now`: one settle delay more, so that a notification that is delivered again within
/// that time is still recognised as a duplicate.
pub open spec fn retention_end(cfg: ConfigView, now: u64) -> u64 {
    due_after(now, cfg.settle_delay)
}

/// The record of a path whose job is over and has no successor yet.
pub open spec fn released(e: TrackedPath) -> TrackedPath {
    TrackedPath { active_job: None, phase: JobPhase::Queued, retry_due: 0, dirty: false, ..e }
}

impl State {
    /// The state before any input: nothing tracked, nothing queued, `workers` free slots.
    pub open spec fn init(workers: nat) -> State {
        State {
            paths: Map::empty(),
            queue: Seq::empty(),
            slots: Seq::new(workers, |i: int| None::<JobView>),
            next_id: 0,
        }
    }

    /// This state with the record of `p` set to `e`.
    pub open spec fn with_path(self, p: Seq<char>, e: TrackedPath) -> State {
        State { paths: self.paths.insert(p, e), ..self }
    }

    /// This state without a record for `p`.
    pub open spec fn without_path(self, p: Seq<char>) -> State {
        State { paths: self.paths.remove(p), ..self }
    }

    /// The job that `dispatch` would create for `p` at `now`.
    pub open spec fn next_job(self, p: Seq<char>, now: u64) -> JobView {
        JobView {
            id: self.next_id,
            path: p,
            attempt: (self.paths[p].retry_count + 1) as u64,
            enqueued_at: now,
        }
    }

    /// Allocates the next job for the tracked path `p` and appends it to the queue.
    pub open spec fn dispatch(self, p: Seq<char>, now: u64) -> State {
        let e = self.paths[p];
        State {
            paths: self.paths.insert(
                p,
                TrackedPath {
                    active_job: Some(self.next_id),
                    phase: JobPhase::Queued,
                    retry_due: 0,
                    dirty: false,
                    ..e
                },
            ),
            queue: self.queue.push(self.next_job(p, now)),
            slots: self.slots,
            next_id: (self.next_id + 1) as u64,
        }
    }

    /// A creation or modification of `p` observed at `at`.
    pub open spec fn on_change(self, cfg: ConfigView, p: Seq<char>, at: u64) -> (State, Option<ActionView>) {
        let arm = Some(ActionView::ArmSettleTimer { path: p, due: due_after(at, cfg.settle_delay) });
        if !self.paths.contains_key(p) {
            (self.with_path(p, TrackedPath::fresh_spec(at)), arm)
        } else if !is_news(self.paths[p], at) {
            (self, None)
        } else {
            (self.with_path(p, changed(self.paths[p], at)), arm)
        }
    }

    /// A removal of `p` observed at `at`. A path without a job in the queue or on a
    /// worker is forgotten at once; otherwise its record stays, idle, until that job is
    /// over. For a path that is idle already only the time is noted.
    pub open spec fn on_removed(self, p: Seq<char>, at: u64) -> (State, Option<ActionView>) {
        let cancel = Some(ActionView::CancelTimers { path: p });
        if !self.paths.contains_key(p) || at < self.paths[p].last_event_at {
            (self, None)
        } else {
            let e = self.paths[p];
            if e.state == PathState::Idle {
                (self.with_path(p, TrackedPath { last_event_at: at, ..e }), None)
            } else if e.active_job is None || e.phase == JobPhase::Backoff {
                (self.without_path(p), cancel)
            } else {
                (
                    self.with_path(
                        p,
                        TrackedPath {
                            state: PathState::Idle,
                            last_event_at: at,
                            retry_count: 0,
                            retry_due: 0,
                            dirty: false,
                            ..e
                        },
                    ),
                    cancel,
                )
            }
        }
    }

    /// A normalised event.
    pub open spec fn on_event(self, cfg: ConfigView, ev: NormalizedEventView) -> (State, Option<ActionView>) {
        if ev.kind == EventKind::Removed {
            self.on_removed(ev.path, ev.at)
        } else {
            self.on_change(cfg, ev.path, ev.at)
        }
    }

    /// Whether the settle timer of `p`, firing at `now`, finds the path pending and
    /// quiet for the whole delay.
    pub open spec fn settles(self, cfg: ConfigView, p: Seq<char>, now: u64) -> bool {
        &&& self.paths.contains_key(p)
        &&& self.paths[p].state == PathState::Pending
        &&& elapsed(self.paths[p].last_event_at, cfg.settle_delay, now)
    }

    /// The settle timer of `p` fires at `now`. A path that settles without a job gets
    /// one; a path that settles while its job is still queued or running keeps that job.
    pub open spec fn on_settle_timer(self, cfg: ConfigView, p: Seq<char>, now: u64) -> State {
        if self.settles(cfg, p, now) {
            let e = self.paths[p];
            let settled = self.with_path(p, TrackedPath { state: PathState::Settled, ..e });
            if e.active_job is Some {
                settled
            } else {
                settled.dispatch(p, now)
            }
        } else {
            self
        }
    }

    /// Whether the retry timer of `p`, firing at `now`, finds a retry that is due.
    pub open spec fn retries(self, p: Seq<char>, now: u64) -> bool {
        &&& self.paths.contains_key(p)
        &&& self.paths[p].active_job is Some
        &&& self.paths[p].phase == JobPhase::Backoff
        &&& now >= self.paths[p].retry_due
    }

    /// The retry timer of `p` fires at `now`.
    pub open spec fn on_retry_timer(self, p: Seq<char>, now: u64) -> State {
        if self.retries(p, now) {
            self.dispatch(p, now)
        } else {
            self
        }
    }

    /// Hands the job at the head of the queue to the first free worker, if there are
    /// both. The job runs only if its path is settled at this moment; it then counts as
    /// the next attempt of the path's current settle cycle.
    pub open spec fn on_start(self) -> (State, StartView) {
        match first_free(self.slots) {
            Some(w) if self.queue.len() > 0 => {
                let job = self.queue[0];
                let e = self.paths[job.path];
                let rest = State { queue: self.queue.drop_first(), ..self };
                if e.state == PathState::Settled {
                    let run = JobView { attempt: (e.retry_count + 1) as u64, ..job };
                    (
                        State { slots: self.slots.update(w, Some(run)), ..rest }.with_path(
                            job.path,
                            TrackedPath { phase: JobPhase::Running, dirty: false, ..e },
                        ),
                        StartView::Run { worker: w, job: run },
                    )
                } else if e.state == PathState::Idle {
                    (rest.without_path(job.path), StartView::Skipped(job))
                } else {
                    (rest.with_path(job.path, released(e)), StartView::Skipped(job))
                }
            },
            _ => (self, StartView::Nothing),
        }
    }

    /// The state and the action after the job of `p`, which ran on the now free slot,
    /// ended with `kind`. Only the outcome of a job whose path is settled and unchanged
    /// since the job started is final; any other is neither retried nor reported.
    pub open spec fn conclude(
        self,
        cfg: ConfigView,
        job: JobView,
        kind: ResultKind,
        duration: u64,
        now: u64,
    ) -> (State, Option<ActionView>) {
        let p = job.path;
        let e = self.paths[p];
        if e.state == PathState::Idle {
            (self.without_path(p), None)
        } else if e.dirty {
            if e.state == PathState::Settled {
                (self.with_path(p, released(e)).dispatch(p, now), None)
            } else {
                (self.with_path(p, released(e)), None)
            }
        } else if kind == ResultKind::Success {
            (
                self.with_path(p, TrackedPath { retry_count: 0, ..released(e) }),
                Some(
                    ActionView::Report {
                        path: p,
                        final_state: FinalState::Success,
                        duration,
                        attempts: job.attempt,
                    },
                ),
            )
        } else if kind == ResultKind::TransientFailure && e.retry_count < cfg.max_retries {
            let retry = (e.retry_count + 1) as u32;
            let due = due_after(now, saturate(backoff_delay(cfg.backoff_policy, cfg.retry_backoff, retry)));
            (
                self.with_path(
                    p,
                    TrackedPath { phase: JobPhase::Backoff, retry_count: retry, retry_due: due, ..e },
                ),
                Some(ActionView::ArmRetryTimer { path: p, due }),
            )
        } else {
            (
                self.with_path(p, TrackedPath { state: PathState::Failed, ..released(e) }),
                Some(
                    ActionView::Report {
                        path: p,
                        final_state: FinalState::Failed,
                        duration,
                        attempts: job.attempt,
                    },
                ),
            )
        }
    }

    /// A worker reports that the job `id` ended with `kind` after `duration`. An
    /// outcome for a job that no worker runs changes nothing.
    pub open spec fn on_outcome(
        self,
        cfg: ConfigView,
        id: u64,
        kind: ResultKind,
        duration: u64,
        now: u64,
    ) -> (State, Option<ActionView>) {
        match slot_of(self.slots, id) {
            Some(w) => State { slots: self.slots.update(w, None), ..self }.conclude(
                cfg,
                self.slots[w]->0,
                kind,
                duration,
                now,
            ),
            None => (self, None),
        }
    }

    /// A timer of the given kind for `p` fires at `now`.
    pub open spec fn on_timer(self, cfg: ConfigView, kind: TimerKind, p: Seq<char>, now: u64) -> State {
        match kind {
            TimerKind::Settle => self.on_settle_timer(cfg, p, now),
            TimerKind::Retry => self.on_retry_timer(p, now),
            TimerKind::Evict => self.on_evict(p),
        }
    }

    /// Whether the record of `p` may be dropped: the path has no job and its last cycle
    /// is over.
    pub open spec fn evictable(self, p: Seq<char>) -> bool {
        &&& self.paths.contains_key(p)
        &&& self.paths[p].active_job is None
        &&& (self.paths[p].state == PathState::Settled || self.paths[p].state == PathState::Failed)
    }

    /// Drops the record of `p` if it may be dropped.
    pub open spec fn on_evict(self, p: Seq<char>) -> State {
        if self.evictable(p) {
            self.without_path(p)
        } else {
            self
        }
    }
}

/// One input of the pipeline.
pub enum Input {
    /// A normalised event.
    Event(NormalizedEventView),
    /// The settle timer of `path` fires at `now`.
    SettleTimer { path: Seq<char>, now: u64 },
    /// The retry timer of `path` fires at `now`.
    RetryTimer { path: Seq<char>, now: u64 },
    /// A free worker asks for the head of the queue.
    Start,
    /// The job `id` ended.
    Outcome { id: u64, kind: ResultKind, duration: u64, now: u64 },
    /// The record of `path` is to be dropped if it may be.
    Evict { path: Seq<char> },
}

impl State {
    /// The state after one input.
    pub open spec fn step(self, cfg: ConfigView, input: Input) -> State {
        match input {
            Input::Event(ev) => self.on_event(cfg, ev).0,
            Input::SettleTimer { path, now } => self.on_settle_timer(cfg, path, now),
            Input::RetryTimer { path, now } => self.on_retry_timer(path, now),
            Input::Start => self.on_start().0,
            Input::Outcome { id, kind, duration, now } => self.on_outcome(cfg, id, kind, duration, now).0,
            Input::Evict { path } => self.on_evict(path),
        }
    }

    /// The state after a sequence of inputs, first input first.
    pub open spec fn run(self, cfg: ConfigView, inputs: Seq<Input>) -> State
        decreases inputs.len(),
    {
        if inputs.len() == 0 {
            self
        } else {
            self.run(cfg, inputs.drop_last()).step(cfg, inputs.last())
        }
    }

    /// Number of queued jobs that are in the buffer of the queue: all of them, up to
    /// the capacity.
    pub open spec fn buffered(self, cfg: ConfigView) -> nat {
        if self.queue.len() <= cfg.queue_capacity {
            self.queue.len()
        } else {
            cfg.queue_capacity as nat
        }
    }

    /// Number of queued jobs that are held back because the buffer is full.
    pub open spec fn held_back(self, cfg: ConfigView) -> nat {
        (self.queue.len() - self.buffered(cfg)) as nat
    }

    /// Whether `p` has a job on a worker whose outcome will be final, with no job
    /// waiting in the queue.
    pub open spec fn attempting(self, p: Seq<char>) -> bool {
        &&& self.paths.contains_key(p)
        &&& self.paths[p].active_job is Some
        &&& self.paths[p].phase == JobPhase::Running
        &&& self.paths[p].state == PathState::Settled
        &&& !self.paths[p].dirty
        &&& self.queue.len() == 0
    }

    /// One failed attempt and what follows it: the running job of `p` fails
    /// transiently at `now`, the retry timer fires when it is due, and the next attempt
    /// starts.
    pub open spec fn retry_round(self, cfg: ConfigView, p: Seq<char>, duration: u64, now: u64) -> State {
        let failed = self.on_outcome(
            cfg,
            self.paths[p].active_job->0,
            ResultKind::TransientFailure,
            duration,
            now,
        ).0;
        failed.on_retry_timer(p, failed.paths[p].retry_due).on_start().0
    }

    /// `n` failed attempts in a row, each followed by its retry.
    pub open spec fn retry_rounds(self, cfg: ConfigView, p: Seq<char>, n: nat, duration: u64, now: u64) -> State
        decreases n,
    {
        if n == 0 {
            self
        } else {
            self.retry_rounds(cfg, p, (n - 1) as nat, duration, now).retry_round(cfg, p, duration, now)
        }
    }

    /// The pending timers after a burst of changes of `p`, observed at `times` in this
    /// order, when the action of every change is applied to them.
    pub open spec fn burst_timers(
        self,
        cfg: ConfigView,
        p: Seq<char>,
        times: Seq<u64>,
        timers: Seq<TimerView>,
    ) -> Seq<TimerView>
        decreases times.len(),
    {
        if times.len() == 0 {
            timers
        } else {
            let earlier = self.burst_timers(cfg, p, times.drop_last(), timers);
            match self.burst(cfg, p, times.drop_last()).on_change(cfg, p, times.last()).1 {
                Some(action) => applied(earlier, action, 0),
                None => earlier,
            }
        }
    }

    /// The state after a burst of changes of `p`, observed at `times` in this order.
    pub open spec fn burst(self, cfg: ConfigView, p: Seq<char>, times: Seq<u64>) -> State
        decreases times.len(),
    {
        if times.len() == 0 {
            self
        } else {
            self.burst(cfg, p, times.drop_last()).on_change(cfg, p, times.last()).0
        }
    }
}

} // verus!
