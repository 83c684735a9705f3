//! What the pipeline guarantees, stated over its state machine and proved.

use vstd::prelude::*;
use crate::backoff::{backoff_delay, due_after, saturate};
use crate::config::ConfigView;
use crate::dispatcher::Dispatcher;
use crate::event::{EventKind, NormalizedEventView, RawEventView};
use crate::job::{ActionView, FinalState, JobView, ResultKind, StartView};
use crate::model::{Input, State};
use crate::path::{is_under, lemma_directory_has_no_extension};
use crate::pool::{first_free, lemma_slot_choices, runs, slot_of};
use crate::safety::{lemma_init_inv, lemma_on_event_inv, lemma_on_evict_inv, lemma_on_outcome_inv, lemma_on_removed_inv, lemma_on_retry_timer_inv, lemma_on_settle_timer_inv, lemma_on_start_inv, lemma_queue_facts};
use crate::timers::{applied, armed, concerns, law_arming_replaces, law_rearming, TimerKind, TimerView};
use crate::tracker::{PathState, TrackedPath};

verus! {

/// Every input keeps the invariant and uses up at most one job identifier.
pub proof fn law_step_keeps_invariant(s: State, cfg: ConfigView, input: Input)
    requires
        s.inv(cfg),
        s.next_id < u64::MAX,
    ensures
        s.step(cfg, input).inv(cfg),
        s.next_id <= s.step(cfg, input).next_id <= s.next_id + 1,
{
    match input {
        Input::Event(ev) => {
            lemma_on_event_inv(s, cfg, ev);
        },
        Input::SettleTimer { path, now } => {
            lemma_on_settle_timer_inv(s, cfg, path, now);
        },
        Input::RetryTimer { path, now } => {
            lemma_on_retry_timer_inv(s, cfg, path, now);
        },
        Input::Start => {
            lemma_on_start_inv(s, cfg);
        },
        Input::Outcome { id, kind, duration, now } => {
            lemma_on_outcome_inv(s, cfg, id, kind, duration, now);
        },
        Input::Evict { path } => {
            lemma_on_evict_inv(s, cfg, path);
        },
    }
}

/// Whatever inputs arrive in whatever order, the pipeline stays within the invariant:
/// in particular no two workers ever run jobs of the same path, no path ever has two
/// jobs, and no record ever names a job that is nowhere.
pub proof fn law_always_invariant(cfg: ConfigView, inputs: Seq<Input>)
    requires
        inputs.len() < u64::MAX,
    ensures
        State::init(cfg.worker_count as nat).run(cfg, inputs).inv(cfg),
        State::init(cfg.worker_count as nat).run(cfg, inputs).next_id <= inputs.len(),
    decreases inputs.len(),
{
    let init = State::init(cfg.worker_count as nat);
    if inputs.len() == 0 {
        lemma_init_inv(cfg);
    } else {
        law_always_invariant(cfg, inputs.drop_last());
        law_step_keeps_invariant(init.run(cfg, inputs.drop_last()), cfg, inputs.last());
    }
}

/// In a state within the invariant each path has at most one job: no two workers run
/// jobs of the same path, no two queued jobs are of the same path, and no path has a
/// job in the queue and another on a worker.
pub proof fn law_one_job_per_path(s: State, cfg: ConfigView)
    requires
        s.inv(cfg),
    ensures
        s.single_flight(),
        forall|i: int, k: int|
            0 <= i < k < s.queue.len() ==> (#[trigger] s.queue[i]).path != (#[trigger] s.queue[k]).path,
        forall|i: int, w: int|
            0 <= i < s.queue.len() && 0 <= w < s.slots.len() && (#[trigger] s.slots[w]) is Some ==> (
            #[trigger] s.queue[i]).path != s.slots[w]->0.path,
{
    lemma_queue_facts(s, cfg);
    assert forall|i: int, w: int|
        0 <= i < s.queue.len() && 0 <= w < s.slots.len() && (#[trigger] s.slots[w]) is Some implies (
    #[trigger] s.queue[i]).path != s.slots[w]->0.path by {
        assert(s.queued_ok(i));
        assert(s.running_ok(w));
    }
}

/// In a state within the invariant every job, queued or running, is the job that the
/// record of its path names, every job is older than the next identifier, and no two
/// jobs share an identifier.
pub proof fn law_jobs_accounted_for(s: State, cfg: ConfigView)
    requires
        s.inv(cfg),
    ensures
        forall|i: int|
            0 <= i < s.queue.len() ==> s.paths.contains_key((#[trigger] s.queue[i]).path) && s.paths[s.queue[i].path].active_job
                == Some(s.queue[i].id) && s.queue[i].id < s.next_id,
        forall|w: int|
            0 <= w < s.slots.len() && (#[trigger] s.slots[w]) is Some ==> s.paths.contains_key(s.slots[w]->0.path)
                && s.paths[s.slots[w]->0.path].active_job == Some(s.slots[w]->0.id) && s.slots[w]->0.id < s.next_id,
        forall|i: int, k: int| 0 <= i < k < s.queue.len() ==> (#[trigger] s.queue[i]).id != (#[trigger] s.queue[k]).id,
        forall|v: int, w: int|
            0 <= v < s.slots.len() && 0 <= w < s.slots.len() && v != w && (#[trigger] s.slots[v]) is Some && (
            #[trigger] s.slots[w]) is Some ==> s.slots[v]->0.id != s.slots[w]->0.id,
        forall|i: int, w: int|
            0 <= i < s.queue.len() && 0 <= w < s.slots.len() && (#[trigger] s.slots[w]) is Some ==> (
            #[trigger] s.queue[i]).id != s.slots[w]->0.id,
{
    lemma_queue_facts(s, cfg);
    assert forall|i: int|
        0 <= i < s.queue.len() implies s.paths.contains_key((#[trigger] s.queue[i]).path) && s.paths[s.queue[i].path].active_job
        == Some(s.queue[i].id) && s.queue[i].id < s.next_id by {
        assert(s.queued_ok(i));
    }
    assert forall|w: int|
        0 <= w < s.slots.len() && (#[trigger] s.slots[w]) is Some implies s.paths.contains_key(s.slots[w]->0.path)
        && s.paths[s.slots[w]->0.path].active_job == Some(s.slots[w]->0.id) && s.slots[w]->0.id < s.next_id by {
        assert(s.running_ok(w));
    }
    assert forall|v: int, w: int|
        0 <= v < s.slots.len() && 0 <= w < s.slots.len() && v != w && (#[trigger] s.slots[v]) is Some && (
        #[trigger] s.slots[w]) is Some implies s.slots[v]->0.id != s.slots[w]->0.id by {
        assert(s.running_ok(v) && s.running_ok(w));
    }
    assert forall|i: int, w: int|
        0 <= i < s.queue.len() && 0 <= w < s.slots.len() && (#[trigger] s.slots[w]) is Some implies (
    #[trigger] s.queue[i]).id != s.slots[w]->0.id by {
        assert(s.queued_ok(i));
        assert(s.running_ok(w));
    }
}

/// The retry count of a path never goes down while its cycle lasts: whatever input
/// arrives that is not an event, a path that is tracked before and after it has at
/// least as many retries used as before, unless the input was the success that ended
/// the cycle.
pub proof fn law_retry_count_monotone(s: State, cfg: ConfigView, input: Input, p: Seq<char>)
    requires
        s.inv(cfg),
        input !is Event,
        s.paths.contains_key(p),
        s.step(cfg, input).paths.contains_key(p),
        s.step(cfg, input).paths[p].active_job is Some || s.step(cfg, input).paths[p].state != PathState::Settled,
    ensures
        s.step(cfg, input).paths[p].retry_count >= s.paths[p].retry_count,
        s.step(cfg, input).paths[p].retry_count <= s.paths[p].retry_count + 1,
{
    match input {
        Input::Outcome { id, kind, duration, now } => {
            lemma_slot_choices(s.slots, id);
            if slot_of(s.slots, id) is Some {
                assert(s.running_ok(slot_of(s.slots, id)->0));
            }
        },
        Input::Start => {
            lemma_slot_choices(s.slots, 0);
            if s.queue.len() > 0 {
                assert(s.queued_ok(0));
            }
        },
        _ => {},
    }
}

/// No two workers of a well-formed dispatcher run jobs of the same path.
pub proof fn law_single_flight(d: &Dispatcher)
    requires
        d.wf(),
    ensures
        d@.single_flight(),
{
    d.lemma_wf();
}

/// A settle timer that fires before the path has been quiet for the whole settle
/// delay changes nothing.
pub proof fn law_early_timer_ignored(s: State, cfg: ConfigView, p: Seq<char>, now: u64)
    requires
        s.paths.contains_key(p) ==> now < s.paths[p].last_event_at + cfg.settle_delay,
    ensures
        s.on_settle_timer(cfg, p, now) == s,
{
}

/// A burst of changes of a path that has no job leaves the path pending since the
/// last change of the burst, without any job. The settle timer that fires once the
/// path has been quiet for the settle delay then produces exactly one job, the first
/// attempt of a new cycle, and a settle timer that fires after it produces no other.
pub proof fn law_burst_yields_one_job(
    s: State,
    cfg: ConfigView,
    p: Seq<char>,
    times: Seq<u64>,
    now: u64,
    later: u64,
)
    requires
        s.inv(cfg),
        s.next_id < u64::MAX,
        times.len() > 0,
        forall|i: int, k: int| 0 <= i < k < times.len() ==> times[i] < times[k],
        s.paths.contains_key(p) ==> s.paths[p].active_job is None && s.paths[p].last_event_at < times[0],
        now >= times.last() + cfg.settle_delay,
    ensures
        s.burst(cfg, p, times).queue == s.queue,
        s.burst(cfg, p, times).slots == s.slots,
        s.burst(cfg, p, times).paths == s.paths.insert(p, TrackedPath::fresh_spec(times.last())),
        s.burst(cfg, p, times).on_settle_timer(cfg, p, now).queue == s.queue.push(
            JobView { id: s.next_id, path: p, attempt: 1, enqueued_at: now },
        ),
        s.burst(cfg, p, times).on_settle_timer(cfg, p, now).on_settle_timer(cfg, p, later)
            == s.burst(cfg, p, times).on_settle_timer(cfg, p, now),
{
    lemma_burst(s, cfg, p, times);
}

/// After a burst of changes of a path that has no job, exactly one settle timer of
/// the path is pending, and it runs out one settle delay after the last change of the
/// burst: every change of the burst has replaced the timer of the change before.
pub proof fn law_burst_arms_one_timer(
    s: State,
    cfg: ConfigView,
    p: Seq<char>,
    times: Seq<u64>,
    timers: Seq<TimerView>,
)
    requires
        s.inv(cfg),
        times.len() > 0,
        forall|i: int, k: int| 0 <= i < k < times.len() ==> times[i] < times[k],
        s.paths.contains_key(p) ==> s.paths[p].active_job is None && s.paths[p].last_event_at < times[0],
    ensures
        s.burst_timers(cfg, p, times, timers) == armed(
            timers,
            TimerView { kind: TimerKind::Settle, path: p, due: due_after(times.last(), cfg.settle_delay) },
        ),
    decreases times.len(),
{
    let head = times.drop_last();
    let last = TimerView { kind: TimerKind::Settle, path: p, due: due_after(times.last(), cfg.settle_delay) };
    assert(s.burst_timers(cfg, p, seq![], timers) == timers);
    if head.len() > 0 {
        lemma_burst(s, cfg, p, head);
        law_burst_arms_one_timer(s, cfg, p, head, timers);
        assert(head.last() == times[times.len() - 2]);
        let before = TimerView { kind: TimerKind::Settle, path: p, due: due_after(head.last(), cfg.settle_delay) };
        law_rearming(timers, before, last);
    } else {
        assert(head =~= seq![]);
        assert(s.burst(cfg, p, seq![]) == s);
    }
}

proof fn lemma_burst(s: State, cfg: ConfigView, p: Seq<char>, times: Seq<u64>)
    requires
        s.inv(cfg),
        times.len() > 0,
        forall|i: int, k: int| 0 <= i < k < times.len() ==> times[i] < times[k],
        s.paths.contains_key(p) ==> s.paths[p].active_job is None && s.paths[p].last_event_at < times[0],
    ensures
        s.burst(cfg, p, times) == (State {
            paths: s.paths.insert(p, TrackedPath::fresh_spec(times.last())),
            ..s
        }),
    decreases times.len(),
{
    let head = times.drop_last();
    assert(s.burst(cfg, p, seq![]) == s);
    if head.len() > 0 {
        lemma_burst(s, cfg, p, head);
        assert(head.last() == times[times.len() - 2]);
    } else {
        assert(head =~= seq![]);
    }
    let mid = s.burst(cfg, p, head);
    let t = mid.on_change(cfg, p, times.last()).0;
    assert(t.paths =~= s.paths.insert(p, TrackedPath::fresh_spec(times.last())));
}

/// A removal that reaches a pending path without a job takes the path out of the
/// pipeline: no job was produced, and no settle timer that fires later produces one.
pub proof fn law_removal_before_settle(s: State, cfg: ConfigView, p: Seq<char>, at: u64, now: u64)
    requires
        s.paths.contains_key(p),
        s.paths[p].state == PathState::Pending,
        s.paths[p].active_job is None,
        at >= s.paths[p].last_event_at,
    ensures
        s.on_removed(p, at).1 == Some(ActionView::CancelTimers { path: p }),
        !s.on_removed(p, at).0.paths.contains_key(p),
        s.on_removed(p, at).0.queue == s.queue,
        s.on_removed(p, at).0.on_settle_timer(cfg, p, now) == s.on_removed(p, at).0,
{
}

/// A removal that reaches a path while its job runs suppresses that job's outcome:
/// whatever the outcome is, nothing is reported, no retry is armed or queued, the
/// worker is free again, and the path is forgotten.
pub proof fn law_removal_during_job(
    s: State,
    cfg: ConfigView,
    w: int,
    at: u64,
    kind: ResultKind,
    duration: u64,
    now: u64,
)
    requires
        s.inv(cfg),
        0 <= w < s.slots.len(),
        s.slots[w] is Some,
        at >= s.paths[s.slots[w]->0.path].last_event_at,
    ensures
        ({
            let job = s.slots[w]->0;
            let removed = s.on_removed(job.path, at).0;
            let end = removed.on_outcome(cfg, job.id, kind, duration, now);
            &&& removed.paths[job.path].state == PathState::Idle
            &&& end.1 is None
            &&& !end.0.paths.contains_key(job.path)
            &&& end.0.queue == s.queue
            &&& end.0.slots == s.slots.update(w, None)
            &&& end.0.next_id == s.next_id
        }),
{
    let job = s.slots[w]->0;
    assert(s.running_ok(w));
    let removed = s.on_removed(job.path, at).0;
    lemma_on_removed_inv(s, cfg, job.path, at);
    lemma_only_slot(removed, cfg, w);
}

/// Under the invariant the slot that runs a job is the only slot that runs it.
proof fn lemma_only_slot(s: State, cfg: ConfigView, w: int)
    requires
        s.inv(cfg),
        0 <= w < s.slots.len(),
        s.slots[w] is Some,
    ensures
        slot_of(s.slots, s.slots[w]->0.id) == Some(w),
{
    let id = s.slots[w]->0.id;
    lemma_slot_choices(s.slots, id);
    assert(runs(s.slots, w, id));
    let v = slot_of(s.slots, id)->0;
    if v != w {
        assert(runs(s.slots, v, id));
        assert(s.running_ok(v) && s.running_ok(w));
        assert(s.slots[v]->0.path != s.slots[w]->0.path);
    }
}

/// No job, queued or running, is an attempt beyond the first one and the configured
/// number of retries.
pub proof fn law_attempts_bounded(s: State, cfg: ConfigView)
    requires
        s.inv(cfg),
    ensures
        forall|i: int| 0 <= i < s.queue.len() ==> 1 <= (#[trigger] s.queue[i]).attempt <= cfg.max_retries + 1,
        forall|w: int|
            0 <= w < s.slots.len() && (#[trigger] s.slots[w]) is Some ==> 1 <= s.slots[w]->0.attempt
                <= cfg.max_retries + 1,
{
}

/// A transient failure of a job whose path is settled and unchanged is retried while
/// retries are left: the retry count grows by one and the retry timer is armed for
/// the backoff delay of that retry. When the timer fires, the next attempt joins the
/// queue. With no retry left the path fails for good, and the report counts the first
/// attempt and every retry.
pub proof fn law_transient_failure(s: State, cfg: ConfigView, w: int, duration: u64, now: u64, later: u64)
    requires
        s.inv(cfg),
        s.next_id < u64::MAX,
        0 <= w < s.slots.len(),
        s.slots[w] is Some,
        s.paths[s.slots[w]->0.path].state == PathState::Settled,
        !s.paths[s.slots[w]->0.path].dirty,
    ensures
        ({
            let job = s.slots[w]->0;
            let used = s.paths[job.path].retry_count;
            let end = s.on_outcome(cfg, job.id, ResultKind::TransientFailure, duration, now);
            let due = due_after(now, saturate(backoff_delay(cfg.backoff_policy, cfg.retry_backoff, (used + 1) as u32)));
            if used < cfg.max_retries {
                &&& end.1 == Some(ActionView::ArmRetryTimer { path: job.path, due })
                &&& end.0.paths[job.path].retry_count == used + 1
                &&& end.0.queue == s.queue
                &&& later >= due ==> end.0.on_retry_timer(job.path, later).queue == s.queue.push(
                    JobView { id: s.next_id, path: job.path, attempt: (used + 2) as u64, enqueued_at: later },
                )
                &&& later < due ==> end.0.on_retry_timer(job.path, later) == end.0
            } else {
                &&& end.1 == Some(
                    ActionView::Report {
                        path: job.path,
                        final_state: FinalState::Failed,
                        duration,
                        attempts: (cfg.max_retries + 1) as u64,
                    },
                )
                &&& end.0.paths[job.path].state == PathState::Failed
                &&& end.0.paths[job.path].active_job is None
                &&& end.0.queue == s.queue
            }
        }),
{
    assert(s.running_ok(w));
    lemma_only_slot(s, cfg, w);
}

/// One failed attempt with retries left leads to the next attempt: the retry count and
/// the next identifier have grown by one, and the path is attempting again.
proof fn lemma_retry_round(s: State, cfg: ConfigView, p: Seq<char>, duration: u64, now: u64)
    requires
        s.inv(cfg),
        s.attempting(p),
        s.paths[p].retry_count < cfg.max_retries,
        s.next_id < u64::MAX,
    ensures
        s.retry_round(cfg, p, duration, now).inv(cfg),
        s.retry_round(cfg, p, duration, now).attempting(p),
        s.retry_round(cfg, p, duration, now).paths[p].retry_count == s.paths[p].retry_count + 1,
        s.retry_round(cfg, p, duration, now).next_id == s.next_id + 1,
{
    let id = s.paths[p].active_job->0;
    assert(s.on_worker(p));
    let w = choose|w: int| 0 <= w < s.slots.len() && (#[trigger] s.slots[w]) is Some && s.slots[w]->0.path == p;
    assert(s.running_ok(w));
    lemma_only_slot(s, cfg, w);
    let failed = s.on_outcome(cfg, id, ResultKind::TransientFailure, duration, now).0;
    lemma_on_outcome_inv(s, cfg, id, ResultKind::TransientFailure, duration, now);
    assert(failed.slots[w] is None);
    let queued = failed.on_retry_timer(p, failed.paths[p].retry_due);
    lemma_on_retry_timer_inv(failed, cfg, p, failed.paths[p].retry_due);
    assert(queued.queue =~= seq![failed.next_job(p, failed.paths[p].retry_due)]);
    lemma_slot_choices(queued.slots, 0);
    assert(queued.slots[w] is None);
    lemma_on_start_inv(queued, cfg);
    let started = queued.on_start().0;
    assert(started.queue =~= Seq::<JobView>::empty());
}

proof fn lemma_retry_rounds(s: State, cfg: ConfigView, p: Seq<char>, n: nat, duration: u64, now: u64)
    requires
        s.inv(cfg),
        s.attempting(p),
        s.paths[p].retry_count == 0,
        n <= cfg.max_retries,
        s.next_id + n < u64::MAX,
    ensures
        s.retry_rounds(cfg, p, n, duration, now).inv(cfg),
        s.retry_rounds(cfg, p, n, duration, now).attempting(p),
        s.retry_rounds(cfg, p, n, duration, now).paths[p].retry_count == n,
        s.retry_rounds(cfg, p, n, duration, now).next_id == s.next_id + n,
    decreases n,
{
    if n > 0 {
        lemma_retry_rounds(s, cfg, p, (n - 1) as nat, duration, now);
        lemma_retry_round(s.retry_rounds(cfg, p, (n - 1) as nat, duration, now), cfg, p, duration, now);
    }
}

/// The whole cycle of a path that settled once and is neither changed nor removed,
/// with the outcome of every attempt given: after `n` transient failures, each
/// retried, the path is at attempt `n + 1`; a success then ends the cycle with a
/// report of success, and the cycle ends in terminal failure exactly when the attempt
/// fails permanently or fails transiently with every retry used up, which is after the
/// first attempt and `max_retries` retries. The report counts the attempts, the job
/// is let go, and nothing is queued: there is no further attempt.
pub proof fn law_scripted_cycle(
    s: State,
    cfg: ConfigView,
    p: Seq<char>,
    n: nat,
    kind: ResultKind,
    duration: u64,
    now: u64,
)
    requires
        s.inv(cfg),
        s.attempting(p),
        s.paths[p].retry_count == 0,
        n <= cfg.max_retries,
        s.next_id + n < u64::MAX,
    ensures
        ({
            let t = s.retry_rounds(cfg, p, n, duration, now);
            let end = t.on_outcome(cfg, t.paths[p].active_job->0, kind, duration, now);
            let failed = Some(
                ActionView::Report { path: p, final_state: FinalState::Failed, duration, attempts: (n + 1) as u64 },
            );
            let succeeded = Some(
                ActionView::Report { path: p, final_state: FinalState::Success, duration, attempts: (n + 1) as u64 },
            );
            &&& t.inv(cfg)
            &&& t.attempting(p)
            &&& t.paths[p].retry_count == n
            &&& kind == ResultKind::Success ==> end.1 == succeeded && end.0.paths[p].state == PathState::Settled
            &&& end.1 == failed <==> kind == ResultKind::PermanentFailure || (kind == ResultKind::TransientFailure
                && n == cfg.max_retries)
            &&& end.1 == failed ==> end.0.paths[p].state == PathState::Failed
            &&& end.1 is Some && end.1->0 is Report ==> end.0.paths[p].active_job is None && end.0.queue.len() == 0
                && end.0.next_id == t.next_id
            &&& kind == ResultKind::TransientFailure && n < cfg.max_retries ==> end.1 is Some && end.1->0 is ArmRetryTimer
        }),
{
    lemma_retry_rounds(s, cfg, p, n, duration, now);
    let t = s.retry_rounds(cfg, p, n, duration, now);
    assert(t.on_worker(p));
    let w = choose|w: int| 0 <= w < t.slots.len() && (#[trigger] t.slots[w]) is Some && t.slots[w]->0.path == p;
    assert(t.running_ok(w));
    lemma_only_slot(t, cfg, w);
}

/// A path without a job that changes again starts a new cycle whatever came before,
/// after a success and after a terminal failure with any number of retries alike. The
/// change counts as real: the path is pending since the time of the change, with no
/// retry used, and its settle timer is armed one settle delay later. When the path
/// has been quiet for that long, exactly one job follows, a first attempt with the
/// full allowance of retries, and a settle timer that fires again adds none.
pub proof fn law_fresh_cycle(s: State, cfg: ConfigView, p: Seq<char>, at: u64, now: u64, later: u64)
    requires
        s.inv(cfg),
        s.next_id < u64::MAX,
        s.paths.contains_key(p),
        s.paths[p].active_job is None,
        at > s.paths[p].last_event_at,
        now >= at + cfg.settle_delay,
    ensures
        ({
            let changed = s.on_change(cfg, p, at);
            let settled = changed.0.on_settle_timer(cfg, p, now);
            &&& changed.1 == Some(ActionView::ArmSettleTimer { path: p, due: due_after(at, cfg.settle_delay) })
            &&& changed.0.paths[p].retry_count == 0
            &&& changed.0.paths[p].state == PathState::Pending
            &&& changed.0.paths[p].last_event_at == at
            &&& changed.0.queue == s.queue
            &&& settled.queue == s.queue.push(JobView { id: s.next_id, path: p, attempt: 1, enqueued_at: now })
            &&& settled.paths[p].retry_count == 0
            &&& settled.paths[p].active_job == Some(s.next_id)
            &&& settled.on_settle_timer(cfg, p, later) == settled
        }),
{
}

/// A change of a pending path that is newer than its latest event restarts the quiet
/// period: the path stays pending, now since the time of the change, no job is made,
/// and the settle timer is armed anew, one settle delay after the change, in place of
/// the one that was pending. A change with the very stamp of the latest event is a
/// duplicate: nothing changes and the pending timer stands. Either way a settle timer
/// that fires before the path has been quiet for the whole delay changes nothing.
pub proof fn law_change_while_pending(
    s: State,
    cfg: ConfigView,
    p: Seq<char>,
    at: u64,
    now: u64,
    timers: Seq<TimerView>,
)
    requires
        s.paths.contains_key(p),
        s.paths[p].state == PathState::Pending,
        at >= s.paths[p].last_event_at,
        now < at + cfg.settle_delay,
    ensures
        ({
            let next = s.on_change(cfg, p, at);
            let timer = TimerView { kind: TimerKind::Settle, path: p, due: due_after(at, cfg.settle_delay) };
            &&& next.0.paths[p].state == PathState::Pending
            &&& next.0.paths[p].last_event_at == at
            &&& next.0.queue == s.queue
            &&& next.0.slots == s.slots
            &&& next.0.next_id == s.next_id
            &&& next.0.on_settle_timer(cfg, p, now) == next.0
            &&& at == s.paths[p].last_event_at ==> next == (s, None::<ActionView>)
            &&& at > s.paths[p].last_event_at ==> {
                &&& next.1 == Some(ActionView::ArmSettleTimer { path: p, due: timer.due })
                &&& applied(timers, next.1->0, 0) == armed(timers, timer)
                &&& armed(timers, timer).last() == timer
                &&& forall|i: int|
                    0 <= i < armed(timers, timer).len() - 1 ==> !concerns(
                        #[trigger] armed(timers, timer)[i],
                        Some(TimerKind::Settle),
                        p,
                    )
            }
        }),
{
    let timer = TimerView { kind: TimerKind::Settle, path: p, due: due_after(at, cfg.settle_delay) };
    law_arming_replaces(timers, timer);
}

/// A settle that dispatches a job never drops it and never lets the buffer of the
/// queue grow beyond its capacity: the job is appended to the queue; if the buffer
/// has room the job is in the buffer, and if the buffer is full it stays full and the
/// job is held back behind it.
pub proof fn law_full_queue_holds_back(s: State, cfg: ConfigView, p: Seq<char>, now: u64)
    requires
        s.inv(cfg),
        s.settles(cfg, p, now),
        s.paths[p].active_job is None,
    ensures
        ({
            let t = s.on_settle_timer(cfg, p, now);
            &&& t.queue == s.queue.push(JobView { id: s.next_id, path: p, attempt: 1, enqueued_at: now })
            &&& t.buffered(cfg) <= cfg.queue_capacity
            &&& s.queue.len() < cfg.queue_capacity ==> t.buffered(cfg) == s.buffered(cfg) + 1 && t.held_back(cfg) == 0
            &&& s.queue.len() >= cfg.queue_capacity ==> t.buffered(cfg) == s.buffered(cfg) && t.held_back(cfg)
                == s.held_back(cfg) + 1
        }),
{
}

/// Whatever the input, the buffer of the queue never holds more than its capacity,
/// and jobs are held back only while it is full.
pub proof fn law_queue_bound(s: State, cfg: ConfigView, input: Input)
    ensures
        s.step(cfg, input).buffered(cfg) <= cfg.queue_capacity,
        s.step(cfg, input).buffered(cfg) + s.step(cfg, input).held_back(cfg) == s.step(cfg, input).queue.len(),
        s.step(cfg, input).held_back(cfg) > 0 ==> s.step(cfg, input).buffered(cfg) == cfg.queue_capacity,
{
}

/// A path that changes while its job runs is never dropped: once it has settled
/// again, the end of the running job, whatever its outcome, puts a new first attempt
/// into the queue and reports nothing.
pub proof fn law_follow_up(s: State, cfg: ConfigView, w: int, kind: ResultKind, duration: u64, now: u64)
    requires
        s.inv(cfg),
        s.next_id < u64::MAX,
        0 <= w < s.slots.len(),
        s.slots[w] is Some,
        s.paths[s.slots[w]->0.path].state == PathState::Settled,
        s.paths[s.slots[w]->0.path].dirty,
    ensures
        ({
            let job = s.slots[w]->0;
            let end = s.on_outcome(cfg, job.id, kind, duration, now);
            &&& end.1 is None
            &&& end.0.queue == s.queue.push(
                JobView { id: s.next_id, path: job.path, attempt: 1, enqueued_at: now },
            )
            &&& end.0.paths[job.path].active_job == Some(s.next_id)
        }),
{
    assert(s.running_ok(w));
    lemma_only_slot(s, cfg, w);
}

/// Jobs leave the queue in the order in which they joined it, and that is the order
/// of their identifiers.
pub proof fn law_first_in_first_out(s: State, cfg: ConfigView)
    requires
        s.inv(cfg),
        s.queue.len() > 0,
        first_free(s.slots) is Some,
    ensures
        s.on_start().0.queue == s.queue.drop_first(),
        s.on_start().1 matches StartView::Run { job, .. } ==> job.id == s.queue[0].id && job.path == s.queue[0].path,
        s.on_start().1 matches StartView::Skipped(job) ==> job == s.queue[0],
        s.on_start().1 !is Nothing,
        forall|i: int| 0 < i < s.queue.len() ==> s.queue[0].id < (#[trigger] s.queue[i]).id,
{
}

/// A queued job whose path is settled when its turn comes runs on the first free
/// worker, as the attempt that follows the retries used so far. That holds also for a
/// job whose path changed and settled again while the job was waiting: the job that
/// waited is the one that runs, on the content that has settled.
pub proof fn law_settled_job_runs(s: State, cfg: ConfigView)
    requires
        s.inv(cfg),
        s.queue.len() > 0,
        first_free(s.slots) is Some,
        s.paths[s.queue[0].path].state == PathState::Settled,
    ensures
        ({
            let job = s.queue[0];
            let w = first_free(s.slots)->0;
            let run = JobView { attempt: (s.paths[job.path].retry_count + 1) as u64, ..job };
            let next = s.on_start();
            &&& next.1 == StartView::Run { worker: w, job: run }
            &&& next.0.slots == s.slots.update(w, Some(run))
            &&& next.0.queue == s.queue.drop_first()
            &&& next.0.paths[job.path].active_job == Some(job.id)
            &&& !next.0.paths[job.path].dirty
        }),
{
    assert(s.queued_ok(0));
}

/// A queued job whose path is not settled when its turn comes does not run: it leaves
/// the queue, no worker is taken, and the path lets go of it. If the path was removed
/// in the meantime it is forgotten; if it changed, it waits for its settle timer.
pub proof fn law_unsettled_job_is_skipped(s: State, cfg: ConfigView)
    requires
        s.inv(cfg),
        s.queue.len() > 0,
        first_free(s.slots) is Some,
        s.paths[s.queue[0].path].state != PathState::Settled,
    ensures
        ({
            let job = s.queue[0];
            let next = s.on_start();
            &&& next.1 == StartView::Skipped(job)
            &&& next.0.slots == s.slots
            &&& next.0.queue == s.queue.drop_first()
            &&& s.paths[job.path].state == PathState::Idle ==> !next.0.paths.contains_key(job.path)
            &&& s.paths[job.path].state != PathState::Idle ==> next.0.paths[job.path].active_job is None
                && next.0.paths[job.path].state == PathState::Pending
        }),
{
    assert(s.queued_ok(0));
}

/// A change that is not newer than the latest event of a tracked path that is not
/// idle changes nothing and asks for nothing: a notification delivered twice does not
/// make a second job.
pub proof fn law_duplicate_ignored(s: State, cfg: ConfigView, p: Seq<char>, at: u64)
    requires
        s.paths.contains_key(p),
        s.paths[p].state != PathState::Idle,
        at <= s.paths[p].last_event_at,
    ensures
        s.on_change(cfg, p, at) == (s, None::<ActionView>),
{
}

/// Delivering an event a second time right after the first changes nothing and asks
/// for nothing.
pub proof fn law_redelivery_is_idle(s: State, cfg: ConfigView, ev: NormalizedEventView)
    ensures
        s.on_event(cfg, ev).0.on_event(cfg, ev) == (s.on_event(cfg, ev).0, None::<ActionView>),
{
    let t = s.on_event(cfg, ev).0;
    let u = t.on_event(cfg, ev).0;
    assert(u.paths =~= t.paths);
}

/// Nothing under the output directory ever enters the pipeline.
pub proof fn law_output_never_input(d: &Dispatcher, raw: RawEventView)
    requires
        d.wf(),
        is_under(raw.path, d.config().output_dir),
    ensures
        d.after_event(raw) == (d@, None::<ActionView>),
{
    d.lemma_wf();
    assert(is_under(raw.path, d.filter().excluded[0]));
}

/// No creation or modification of a directory enters the pipeline, whether the source
/// marks the path as one or the path ends in `/`.
pub proof fn law_directories_dropped(d: &Dispatcher, raw: RawEventView)
    requires
        raw.kind != EventKind::Removed,
        raw.directory || (raw.path.len() > 0 && raw.path.last() == '/'),
    ensures
        d.after_event(raw) == (d@, None::<ActionView>),
{
    if !raw.directory {
        lemma_directory_has_no_extension(raw.path);
    }
}

/// A removal passes the filters whatever the extension of its path.
pub proof fn law_removal_passes(d: &Dispatcher, raw: RawEventView)
    requires
        raw.kind == EventKind::Removed,
        !crate::path::is_malformed(raw.path),
        !d.filter().excludes(raw.path),
    ensures
        d.after_event(raw) == d@.on_removed(raw.path, raw.observed_at),
{
}

} // verus!
