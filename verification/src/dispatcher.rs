//! The dispatcher: the single owner of the tracked paths, the queue and the worker
//! slots.
//!
//! Every input of the pipeline is one call: a raw notification, a settle or retry
//! timer that fired, a free worker asking for work, the outcome of a job. The call
//! computes the step of [`State`] for that input and hands back what the surroundings
//! have to do next. The surroundings own the clock, the timers, the watch source and
//! the transcoder; the dispatcher owns every decision.

use vstd::prelude::*;
use vstd::string::*;
use crate::backoff::{backoff, deadline, has_elapsed};
use crate::config::{Config, ConfigError, ConfigView};
use crate::event::{EventKind, RawEvent, RawEventView};
use crate::job::{action_opt_view, job_opt_view, Action, ActionView, FinalState, Job, JobOutcome, JobView, OutcomeReport, ResultKind, Start};
use crate::model::{retention_end, State};
use crate::normalizer::{string_views, FilterView, Normalizer};
use crate::pool::{lemma_slot_choices, WorkerPool};
use crate::queue::JobQueue;
use crate::safety::{lemma_init_inv, lemma_on_event_inv, lemma_on_evict_inv, lemma_on_outcome_inv, lemma_on_retry_timer_inv, lemma_on_settle_timer_inv, lemma_on_start_inv};
use crate::timers::{applied, Timer, TimerKind, Timers};
use crate::tracker::{JobPhase, PathState, TrackedPath, Tracker};

verus! {

/// The event-coalescing and job-dispatch pipeline.
#[derive(Debug)]
pub struct Dispatcher {
    config: Config,
    normalizer: Normalizer,
    tracker: Tracker,
    queue: JobQueue,
    pool: WorkerPool,
    next_job_id: u64,
}

impl View for Dispatcher {
    type V = State;

    closed spec fn view(&self) -> State {
        State { paths: self.tracker@, queue: self.queue@, slots: self.pool@, next_id: self.next_job_id }
    }
}

impl Dispatcher {
    /// The configuration the dispatcher was built with.
    pub closed spec fn config(&self) -> ConfigView {
        self.config@
    }

    /// The filters of its normaliser.
    pub closed spec fn filter(&self) -> FilterView {
        self.normalizer@
    }

    /// The parts fit together, whatever the state.
    pub closed spec fn rep(&self) -> bool {
        &&& self.tracker.wf()
        &&& self.queue.wf()
        &&& self.queue.capacity() == self.config@.queue_capacity
        &&& self.config@.valid()
        &&& self.normalizer@.excluded.len() > 0
        &&& self.normalizer@.excluded[0] == self.config@.output_dir
    }

    /// The dispatcher is well formed: its parts fit together and its state is one the
    /// pipeline can reach.
    pub closed spec fn wf(&self) -> bool {
        &&& self.rep()
        &&& self@.inv(self.config@)
    }

    /// Number of jobs in the buffer of the queue.
    pub open spec fn accepted_count(&self) -> nat {
        self@.buffered(self.config())
    }

    /// The state and the action after a raw notification: those of the normalised
    /// event if the notification passes the filters, no change otherwise.
    pub open spec fn after_event(&self, raw: RawEventView) -> (State, Option<ActionView>) {
        match self.filter().normalized(raw) {
            Some(ev) => self@.on_event(self.config(), ev),
            None => (self@, None),
        }
    }

    /// What a well-formed dispatcher guarantees of its state and its configuration.
    pub proof fn lemma_wf(&self)
        requires
            self.wf(),
        ensures
            self@.inv(self.config()),
            self.config().valid(),
            self.filter().excluded.len() > 0,
            self.filter().excluded[0] == self.config().output_dir,
    {
    }

    /// A dispatcher for `config` that transcodes files with the given extensions, or
    /// the first defect of `config`.
    pub fn new(config: Config, extensions: &Vec<String>) -> (r: Result<Dispatcher, ConfigError>)
        ensures
            match r {
                Ok(d) => {
                    &&& config@.check() is Ok
                    &&& d.wf()
                    &&& d.config() == config@
                    &&& d@ == State::init(config@.worker_count as nat)
                    &&& d.filter() == (FilterView {
                        extensions: string_views(extensions@),
                        excluded: seq![config@.output_dir],
                    })
                },
                Err(e) => config@.check() == Err::<(), ConfigError>(e),
            },
    {
        match config.validate() {
            Err(e) => Err(e),
            Ok(_) => {
                let normalizer = Normalizer::new(extensions, config.output_dir.as_str());
                let queue = JobQueue::new(config.queue_capacity);
                let pool = WorkerPool::new(config.worker_count);
                let d = Dispatcher { config, normalizer, tracker: Tracker::new(), queue, pool, next_job_id: 0 };
                proof {
                    lemma_init_inv(d.config@);
                    assert(d@ =~= State::init(d.config@.worker_count as nat));
                }
                Ok(d)
            },
        }
    }

    /// Allocates the next job for the tracked path `path` and appends it to the queue.
    fn dispatch(&mut self, path: &String, now: u64)
        requires
            old(self).rep(),
            old(self)@.paths.contains_key(path@),
            old(self)@.next_id < u64::MAX,
        ensures
            final(self).rep(),
            final(self).config() == old(self).config(),
            final(self).filter() == old(self).filter(),
            final(self)@ == old(self)@.dispatch(path@, now),
    {
        match self.tracker.get(path) {
            None => {},
            Some(e) => {
                let id = self.next_job_id;
                let job = Job { id, path: path.clone(), attempt: e.retry_count as u64 + 1, enqueued_at: now };
                let record = TrackedPath {
                    active_job: Some(id),
                    phase: JobPhase::Queued,
                    retry_due: 0,
                    dirty: false,
                    ..e
                };
                self.tracker.insert(path, record);
                self.queue.offer(job);
                self.next_job_id = id + 1;
                assert(self@ =~= old(self)@.dispatch(path@, now));
            },
        }
    }

    /// Takes in one raw notification: filters it and, if it passes, applies it to the
    /// record of its path. The action, if any, arms the settle timer of the path or
    /// cancels its timers.
    pub fn handle_event(&mut self, raw: &RawEvent) -> (action: Option<Action>)
        requires
            old(self).wf(),
        ensures
            final(self).wf(),
            final(self).config() == old(self).config(),
            final(self).filter() == old(self).filter(),
            (final(self)@, action_opt_view(action)) == old(self).after_event(raw@),
    {
        match self.normalizer.normalize(raw) {
            None => None,
            Some(ev) => {
                proof {
                    lemma_on_event_inv(self@, self.config@, ev@);
                }
                match ev.kind {
                    EventKind::Removed => self.apply_removed(ev.path, ev.at),
                    _ => self.apply_change(ev.path, ev.at),
                }
            },
        }
    }

    fn apply_change(&mut self, path: String, at: u64) -> (action: Option<Action>)
        requires
            old(self).rep(),
        ensures
            final(self).rep(),
            final(self).config() == old(self).config(),
            final(self).filter() == old(self).filter(),
            (final(self)@, action_opt_view(action)) == old(self)@.on_change(old(self).config(), path@, at),
    {
        let due = deadline(at, self.config.settle_delay);
        match self.tracker.get(&path) {
            None => {
                self.tracker.insert(&path, TrackedPath::fresh(at));
                Some(Action::ArmSettleTimer { path, due })
            },
            Some(e) => {
                let news = match e.state {
                    PathState::Idle => at >= e.last_event_at,
                    _ => at > e.last_event_at,
                };
                if !news {
                    None
                } else {
                    let keeps_job = e.active_job.is_some() && e.phase != JobPhase::Backoff;
                    let record = TrackedPath {
                        state: PathState::Pending,
                        last_event_at: at,
                        active_job: if keeps_job {
                            e.active_job
                        } else {
                            None
                        },
                        phase: if keeps_job {
                            e.phase
                        } else {
                            JobPhase::Queued
                        },
                        retry_count: 0,
                        retry_due: 0,
                        dirty: keeps_job && e.phase == JobPhase::Running,
                    };
                    self.tracker.insert(&path, record);
                    Some(Action::ArmSettleTimer { path, due })
                }
            },
        }
    }

    fn apply_removed(&mut self, path: String, at: u64) -> (action: Option<Action>)
        requires
            old(self).rep(),
        ensures
            final(self).rep(),
            final(self).config() == old(self).config(),
            final(self).filter() == old(self).filter(),
            (final(self)@, action_opt_view(action)) == old(self)@.on_removed(path@, at),
    {
        match self.tracker.get(&path) {
            None => None,
            Some(e) => {
                if at < e.last_event_at {
                    None
                } else if e.state == PathState::Idle {
                    self.tracker.insert(&path, TrackedPath { last_event_at: at, ..e });
                    None
                } else if e.active_job.is_none() || e.phase == JobPhase::Backoff {
                    self.tracker.remove(&path);
                    Some(Action::CancelTimers { path })
                } else {
                    let record = TrackedPath {
                        state: PathState::Idle,
                        last_event_at: at,
                        retry_count: 0,
                        retry_due: 0,
                        dirty: false,
                        ..e
                    };
                    self.tracker.insert(&path, record);
                    Some(Action::CancelTimers { path })
                }
            },
        }
    }

    /// The settle timer of `path` fired at `now`. If the path is pending and has been
    /// quiet for the whole settle delay it becomes settled and, unless it still has a
    /// job, gets one; else nothing changes.
    pub fn handle_settle_timer(&mut self, path: &str, now: u64)
        requires
            old(self).wf(),
            old(self)@.next_id < u64::MAX,
        ensures
            final(self).wf(),
            final(self).config() == old(self).config(),
            final(self).filter() == old(self).filter(),
            final(self)@ == old(self)@.on_settle_timer(old(self).config(), path@, now),
    {
        proof {
            lemma_on_settle_timer_inv(self@, self.config@, path@, now);
        }
        let key = String::from_str(path);
        match self.tracker.get(&key) {
            None => {},
            Some(e) => {
                if e.state == PathState::Pending && has_elapsed(e.last_event_at, self.config.settle_delay, now) {
                    self.tracker.insert(&key, TrackedPath { state: PathState::Settled, ..e });
                    if e.active_job.is_none() {
                        self.dispatch(&key, now);
                    }
                }
            },
        }
    }

    /// The retry timer of `path` fired at `now`. If a retry of the path is due, its job
    /// joins the queue; else nothing changes.
    pub fn handle_retry_timer(&mut self, path: &str, now: u64)
        requires
            old(self).wf(),
            old(self)@.next_id < u64::MAX,
        ensures
            final(self).wf(),
            final(self).config() == old(self).config(),
            final(self).filter() == old(self).filter(),
            final(self)@ == old(self)@.on_retry_timer(path@, now),
    {
        proof {
            lemma_on_retry_timer_inv(self@, self.config@, path@, now);
        }
        let key = String::from_str(path);
        match self.tracker.get(&key) {
            None => {},
            Some(e) => {
                if e.active_job.is_some() && e.phase == JobPhase::Backoff && now >= e.retry_due {
                    self.dispatch(&key, now);
                }
            },
        }
    }

    /// Hands the job at the head of the queue to the first free worker, if there are
    /// both. Call again until the answer is [`Start::Nothing`].
    pub fn start_next(&mut self) -> (r: Start)
        requires
            old(self).wf(),
        ensures
            final(self).wf(),
            final(self).config() == old(self).config(),
            final(self).filter() == old(self).filter(),
            (final(self)@, r@) == old(self)@.on_start(),
    {
        proof {
            lemma_on_start_inv(self@, self.config@);
        }
        match self.pool.free_slot() {
            None => Start::Nothing,
            Some(w) => {
                match self.queue.take() {
                    None => Start::Nothing,
                    Some(job) => {
                        assert(old(self)@.queued_ok(0));
                        match self.tracker.get(&job.path) {
                            None => Start::Nothing,
                            Some(e) => {
                                match e.state {
                                    PathState::Settled => {
                                        self.tracker.insert(
                                            &job.path,
                                            TrackedPath { phase: JobPhase::Running, dirty: false, ..e },
                                        );
                                        let run = Job {
                                            id: job.id,
                                            path: job.path,
                                            attempt: e.retry_count as u64 + 1,
                                            enqueued_at: job.enqueued_at,
                                        };
                                        self.pool.assign(w, run.duplicate());
                                        assert(self@ =~= old(self)@.on_start().0);
                                        Start::Run { worker: w, job: run }
                                    },
                                    PathState::Idle => {
                                        self.tracker.remove(&job.path);
                                        assert(self@ =~= old(self)@.on_start().0);
                                        Start::Skipped(job)
                                    },
                                    _ => {
                                        self.tracker.insert(
                                            &job.path,
                                            TrackedPath {
                                                active_job: None,
                                                phase: JobPhase::Queued,
                                                retry_due: 0,
                                                dirty: false,
                                                ..e
                                            },
                                        );
                                        assert(self@ =~= old(self)@.on_start().0);
                                        Start::Skipped(job)
                                    },
                                }
                            },
                        }
                    },
                }
            },
        }
    }

    /// Settles the account of `job`, which ended with `kind` and whose slot is free.
    fn conclude(&mut self, job: Job, kind: ResultKind, duration: u64, now: u64) -> (action: Option<Action>)
        requires
            old(self).rep(),
            old(self)@.paths.contains_key(job@.path),
            old(self)@.next_id < u64::MAX,
        ensures
            final(self).rep(),
            final(self).config() == old(self).config(),
            final(self).filter() == old(self).filter(),
            (final(self)@, action_opt_view(action)) == old(self)@.conclude(
                old(self).config(),
                job@,
                kind,
                duration,
                now,
            ),
    {
        match self.tracker.get(&job.path) {
            None => None,
            Some(e) => {
                let free = TrackedPath { active_job: None, phase: JobPhase::Queued, retry_due: 0, dirty: false, ..e };
                if e.state == PathState::Idle {
                    self.tracker.remove(&job.path);
                    None
                } else if e.dirty {
                    self.tracker.insert(&job.path, free);
                    if e.state == PathState::Settled {
                        self.dispatch(&job.path, now);
                    }
                    None
                } else if kind == ResultKind::Success {
                    self.tracker.insert(&job.path, TrackedPath { retry_count: 0, ..free });
                    Some(
                        Action::Report(
                            OutcomeReport {
                                path: job.path,
                                final_state: FinalState::Success,
                                duration,
                                attempts: job.attempt,
                            },
                        ),
                    )
                } else if kind == ResultKind::TransientFailure && e.retry_count < self.config.max_retries {
                    let retry = e.retry_count + 1;
                    let due = deadline(now, backoff(self.config.backoff_policy, self.config.retry_backoff, retry));
                    self.tracker.insert(
                        &job.path,
                        TrackedPath { phase: JobPhase::Backoff, retry_count: retry, retry_due: due, ..e },
                    );
                    Some(Action::ArmRetryTimer { path: job.path, due })
                } else {
                    self.tracker.insert(&job.path, TrackedPath { state: PathState::Failed, ..free });
                    Some(
                        Action::Report(
                            OutcomeReport {
                                path: job.path,
                                final_state: FinalState::Failed,
                                duration,
                                attempts: job.attempt,
                            },
                        ),
                    )
                }
            },
        }
    }

    /// The job `id` ended with `kind` after `duration` milliseconds.
    fn finish(&mut self, id: u64, kind: ResultKind, duration: u64, now: u64) -> (action: Option<Action>)
        requires
            old(self).wf(),
            old(self)@.next_id < u64::MAX,
        ensures
            final(self).wf(),
            final(self).config() == old(self).config(),
            final(self).filter() == old(self).filter(),
            (final(self)@, action_opt_view(action)) == old(self)@.on_outcome(
                old(self).config(),
                id,
                kind,
                duration,
                now,
            ),
    {
        proof {
            lemma_on_outcome_inv(self@, self.config@, id, kind, duration, now);
            lemma_slot_choices(self@.slots, id);
        }
        match self.pool.find(id) {
            None => None,
            Some(w) => {
                assert(old(self)@.running_ok(w as int));
                match self.pool.release(w) {
                    None => None,
                    Some(job) => self.conclude(job, kind, duration, now),
                }
            },
        }
    }

    /// Takes in the outcome of a job: frees its worker and decides between retry,
    /// success and terminal failure. The action, if any, arms the retry timer or
    /// reports the end of the cycle. An outcome for a job that no worker runs changes
    /// nothing.
    pub fn handle_outcome(&mut self, outcome: &JobOutcome, now: u64) -> (action: Option<Action>)
        requires
            old(self).wf(),
            old(self)@.next_id < u64::MAX,
        ensures
            final(self).wf(),
            final(self).config() == old(self).config(),
            final(self).filter() == old(self).filter(),
            (final(self)@, action_opt_view(action)) == old(self)@.on_outcome(
                old(self).config(),
                outcome.job_id,
                outcome.result.kind_of(),
                outcome.duration,
                now,
            ),
    {
        self.finish(outcome.job_id, outcome.result.kind(), outcome.duration, now)
    }

    /// The worker that ran the job `job_id` failed before it could produce an
    /// outcome: the attempt counts as a transient failure.
    pub fn handle_worker_fault(&mut self, job_id: u64, duration: u64, now: u64) -> (action: Option<Action>)
        requires
            old(self).wf(),
            old(self)@.next_id < u64::MAX,
        ensures
            final(self).wf(),
            final(self).config() == old(self).config(),
            final(self).filter() == old(self).filter(),
            (final(self)@, action_opt_view(action)) == old(self)@.on_outcome(
                old(self).config(),
                job_id,
                ResultKind::TransientFailure,
                duration,
                now,
            ),
    {
        self.finish(job_id, ResultKind::TransientFailure, duration, now)
    }

    /// Drops the record of `path` if the path has no job and its last cycle is over.
    /// Returns whether it did.
    pub fn evict(&mut self, path: &str) -> (dropped: bool)
        requires
            old(self).wf(),
        ensures
            final(self).wf(),
            final(self).config() == old(self).config(),
            final(self).filter() == old(self).filter(),
            final(self)@ == old(self)@.on_evict(path@),
            dropped == old(self)@.evictable(path@),
    {
        proof {
            lemma_on_evict_inv(self@, self.config@, path@);
        }
        let key = String::from_str(path);
        match self.tracker.get(&key) {
            None => false,
            Some(e) => {
                if e.active_job.is_none() && (e.state == PathState::Settled || e.state == PathState::Failed) {
                    self.tracker.remove(&key);
                    true
                } else {
                    false
                }
            },
        }
    }

    /// The timer `timer` fired at `now`: the settle timer, the retry timer or the
    /// eviction timer of its path, by its kind.
    pub fn handle_timer(&mut self, timer: &Timer, now: u64)
        requires
            old(self).wf(),
            old(self)@.next_id < u64::MAX,
        ensures
            final(self).wf(),
            final(self).config() == old(self).config(),
            final(self).filter() == old(self).filter(),
            final(self)@ == old(self)@.on_timer(old(self).config(), timer.kind, timer.path@, now),
    {
        match timer.kind {
            TimerKind::Settle => self.handle_settle_timer(timer.path.as_str(), now),
            TimerKind::Retry => self.handle_retry_timer(timer.path.as_str(), now),
            TimerKind::Evict => {
                self.evict(timer.path.as_str());
            },
        }
    }

    /// Does the timer part of `action`, which this dispatcher handed out at `now`:
    /// arms what the action arms and drops what it cancels; for a report, arms the
    /// eviction timer of the reported path for the end of its retention.
    pub fn schedule(&self, timers: &mut Timers, action: &Action, now: u64)
        ensures
            final(timers)@ == applied(old(timers)@, action@, retention_end(self.config(), now)),
    {
        timers.apply(action, deadline(now, self.config.settle_delay));
    }

    /// The record of `path`, if the path is tracked.
    pub fn record(&self, path: &str) -> (r: Option<TrackedPath>)
        requires
            self.wf(),
        ensures
            r == (if self@.paths.contains_key(path@) {
                Some(self@.paths[path@])
            } else {
                None
            }),
    {
        let key = String::from_str(path);
        self.tracker.get(&key)
    }

    /// Number of jobs in the buffer of the queue: never more than its capacity.
    pub fn queued(&self) -> (n: usize)
        requires
            self.wf(),
        ensures
            n == self.accepted_count(),
            n <= self.config().queue_capacity,
    {
        self.queue.accepted_len()
    }

    /// Number of jobs held back because the buffer of the queue is full.
    pub fn blocked(&self) -> (n: usize)
        requires
            self.wf(),
        ensures
            n == self@.held_back(self.config()),
    {
        self.queue.blocked_len()
    }

    /// Number of workers.
    pub fn workers(&self) -> (n: usize)
        requires
            self.wf(),
        ensures
            n == self@.slots.len(),
            n == self.config().worker_count,
    {
        self.pool.size()
    }

    /// Number of workers that run a job.
    pub fn busy_workers(&self) -> (n: usize)
        ensures
            n == self@.slots.filter(|s: Option<JobView>| s is Some).len(),
    {
        self.pool.busy()
    }

    /// A copy of the job that `worker` runs, if it runs one.
    pub fn running(&self, worker: usize) -> (r: Option<Job>)
        ensures
            job_opt_view(r) == (if worker < self@.slots.len() {
                self@.slots[worker as int]
            } else {
                None
            }),
    {
        if worker < self.pool.size() {
            self.pool.job_at(worker)
        } else {
            None
        }
    }

    /// The identifier the next job gets.
    pub fn next_job_id(&self) -> (id: u64)
        ensures
            id == self@.next_id,
    {
        self.next_job_id
    }

    /// Whether another job can still be given an identifier.
    pub fn can_allocate(&self) -> (r: bool)
        ensures
            r == (self@.next_id < u64::MAX),
    {
        self.next_job_id < u64::MAX
    }

    /// The configuration the dispatcher was built with.
    pub fn settings(&self) -> (c: &Config)
        ensures
            c@ == self.config(),
    {
        &self.config
    }
}

} // verus!
