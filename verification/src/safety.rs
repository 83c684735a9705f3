//! What holds of every state the pipeline can reach, and the proof that each step
//! keeps it.

use vstd::prelude::*;
use crate::config::ConfigView;
use crate::event::NormalizedEventView;
use crate::job::ResultKind;
use crate::model::{released, State};
use crate::pool::{first_free, lemma_slot_choices, slot_of};
use crate::tracker::{JobPhase, PathState, TrackedPath};

verus! {

/// What holds of the record of a single path.
pub open spec fn record_wf(e: TrackedPath, max_retries: u32, next_id: u64) -> bool {
    &&& e.retry_count <= max_retries
    &&& (e.active_job matches Some(id) ==> id < next_id)
    &&& (e.state == PathState::Pending ==> e.retry_count == 0)
    &&& (e.state == PathState::Idle ==> e.active_job is Some && e.phase != JobPhase::Backoff)
    &&& (e.state == PathState::Failed ==> e.active_job is None)
    &&& (e.dirty ==> e.active_job is Some && e.phase == JobPhase::Running && e.retry_count == 0 && e.state
        != PathState::Idle)
    &&& (e.active_job is Some && e.phase == JobPhase::Running && !e.dirty ==> e.state == PathState::Settled
        || e.state == PathState::Idle)
    &&& (e.active_job is Some && e.phase == JobPhase::Backoff ==> e.state == PathState::Settled)
    &&& (e.active_job is None && e.state == PathState::Settled ==> e.retry_count == 0)
}

impl State {
    /// The job at position `i` of the queue is the job of its path, and that path knows
    /// it is queued.
    pub open spec fn queued_ok(self, i: int) -> bool {
        let j = self.queue[i];
        &&& self.paths.contains_key(j.path)
        &&& self.paths[j.path].active_job == Some(j.id)
        &&& self.paths[j.path].phase == JobPhase::Queued
    }

    /// The job on slot `w`, if there is one, is the job of its path, and that path
    /// knows it is running. Unless the path changed or was removed since the job
    /// started, the job is the attempt that follows the retries used so far.
    pub open spec fn running_ok(self, w: int) -> bool {
        self.slots[w] matches Some(j) ==> {
            let e = self.paths[j.path];
            &&& self.paths.contains_key(j.path)
            &&& e.active_job == Some(j.id)
            &&& e.phase == JobPhase::Running
            &&& (e.state == PathState::Settled && !e.dirty ==> j.attempt == e.retry_count + 1)
        }
    }

    /// No job is an attempt beyond the first and the retries that the configuration
    /// grants.
    pub open spec fn attempts_bounded(self, max_retries: u32) -> bool {
        &&& forall|i: int| 0 <= i < self.queue.len() ==> 1 <= (#[trigger] self.queue[i]).attempt <= max_retries + 1
        &&& forall|w: int|
            0 <= w < self.slots.len() && (#[trigger] self.slots[w]) is Some ==> 1 <= self.slots[w]->0.attempt
                <= max_retries + 1
    }

    /// Whether a job of `p` is in the queue.
    pub open spec fn in_queue(self, p: Seq<char>) -> bool {
        exists|i: int| 0 <= i < self.queue.len() && (#[trigger] self.queue[i]).path == p
    }

    /// Whether a job of `p` is on a worker.
    pub open spec fn on_worker(self, p: Seq<char>) -> bool {
        exists|w: int| 0 <= w < self.slots.len() && (#[trigger] self.slots[w]) is Some && self.slots[w]->0.path == p
    }

    /// No two workers run jobs of the same path.
    pub open spec fn single_flight(self) -> bool {
        forall|v: int, w: int|
            0 <= v < self.slots.len() && 0 <= w < self.slots.len() && v != w && (#[trigger] self.slots[v]) is Some
                && (#[trigger] self.slots[w]) is Some ==> self.slots[v]->0.path != self.slots[w]->0.path
    }

    /// Jobs wait in the order of their identifiers.
    pub open spec fn queue_ordered(self) -> bool {
        forall|i: int, k: int| 0 <= i < k < self.queue.len() ==> (#[trigger] self.queue[i]).id < (#[trigger] self.queue[k]).id
    }

    /// Every path that names a job has that job somewhere: in the queue, on a worker,
    /// or behind a retry timer.
    pub open spec fn no_dangling_job(self) -> bool {
        forall|p: Seq<char>| #[trigger]
            self.paths.contains_key(p) && self.paths[p].active_job is Some ==> {
                &&& self.paths[p].phase == JobPhase::Queued ==> self.in_queue(p)
                &&& self.paths[p].phase == JobPhase::Running ==> self.on_worker(p)
            }
    }

    /// No two paths name the same job.
    pub open spec fn jobs_unique(self) -> bool {
        forall|p: Seq<char>, q: Seq<char>|
            #![trigger self.paths[p], self.paths[q]]
            self.paths.contains_key(p) && self.paths.contains_key(q) && p != q && self.paths[p].active_job is Some
                ==> self.paths[p].active_job != self.paths[q].active_job
    }

    /// What holds of every reachable state.
    pub open spec fn inv(self, cfg: ConfigView) -> bool {
        &&& self.slots.len() == cfg.worker_count
        &&& forall|p: Seq<char>| #[trigger]
            self.paths.contains_key(p) ==> record_wf(self.paths[p], cfg.max_retries, self.next_id)
        &&& forall|i: int| 0 <= i < self.queue.len() ==> #[trigger] self.queued_ok(i)
        &&& forall|w: int| 0 <= w < self.slots.len() ==> #[trigger] self.running_ok(w)
        &&& self.queue_ordered()
        &&& self.attempts_bounded(cfg.max_retries)
        &&& self.single_flight()
        &&& self.no_dangling_job()
        &&& self.jobs_unique()
    }
}

/// The state before any input satisfies the invariant.
pub proof fn lemma_init_inv(cfg: ConfigView)
    ensures
        State::init(cfg.worker_count as nat).inv(cfg),
{
}

/// Under the invariant no path has two jobs in the queue, and every queued job is
/// older than the next identifier.
pub proof fn lemma_queue_facts(s: State, cfg: ConfigView)
    requires
        s.inv(cfg),
    ensures
        forall|i: int, k: int| 0 <= i < k < s.queue.len() ==> (#[trigger] s.queue[i]).path != (#[trigger] s.queue[k]).path,
        forall|i: int| 0 <= i < s.queue.len() ==> (#[trigger] s.queue[i]).id < s.next_id,
{
    assert forall|i: int, k: int| 0 <= i < k < s.queue.len() implies (#[trigger] s.queue[i]).path != (
    #[trigger] s.queue[k]).path by {
        assert(s.queued_ok(i) && s.queued_ok(k));
    }
    assert forall|i: int| 0 <= i < s.queue.len() implies (#[trigger] s.queue[i]).id < s.next_id by {
        assert(s.queued_ok(i));
    }
}

/// A step that touches nothing but records, and leaves every record that names a job
/// with that job in that phase, leaves no job dangling.
proof fn lemma_records_only(s: State, t: State)
    requires
        s.no_dangling_job(),
        t.queue == s.queue,
        t.slots == s.slots,
        forall|q: Seq<char>| #[trigger]
            t.paths.contains_key(q) && t.paths[q].active_job is Some ==> s.paths.contains_key(q)
                && s.paths[q].active_job is Some && s.paths[q].phase == t.paths[q].phase,
    ensures
        t.no_dangling_job(),
{
    assert forall|q: Seq<char>| #[trigger]
        t.paths.contains_key(q) && t.paths[q].active_job is Some implies {
        &&& t.paths[q].phase == JobPhase::Queued ==> t.in_queue(q)
        &&& t.paths[q].phase == JobPhase::Running ==> t.on_worker(q)
    } by {
        assert(s.paths.contains_key(q));
        assert(s.in_queue(q) ==> t.in_queue(q));
        assert(s.on_worker(q) ==> t.on_worker(q));
    }
}

/// A change event keeps the invariant.
pub proof fn lemma_on_change_inv(s: State, cfg: ConfigView, p: Seq<char>, at: u64)
    requires
        s.inv(cfg),
    ensures
        s.on_change(cfg, p, at).0.inv(cfg),
{
    let t = s.on_change(cfg, p, at).0;
    if t != s {
        let e = t.paths[p];
        assert(record_wf(e, cfg.max_retries, t.next_id));
        assert forall|i: int| 0 <= i < t.queue.len() implies #[trigger] t.queued_ok(i) by {
            assert(s.queued_ok(i));
        }
        assert forall|w: int| 0 <= w < t.slots.len() implies #[trigger] t.running_ok(w) by {
            assert(s.running_ok(w));
        }
        lemma_records_only(s, t);
        assert(t.jobs_unique());
    }
}

/// A removal keeps the invariant.
pub proof fn lemma_on_removed_inv(s: State, cfg: ConfigView, p: Seq<char>, at: u64)
    requires
        s.inv(cfg),
    ensures
        s.on_removed(p, at).0.inv(cfg),
{
    let t = s.on_removed(p, at).0;
    if t != s {
        assert(s.paths.contains_key(p));
        assert forall|i: int| 0 <= i < t.queue.len() implies #[trigger] t.queued_ok(i) by {
            assert(s.queued_ok(i));
        }
        assert forall|w: int| 0 <= w < t.slots.len() implies #[trigger] t.running_ok(w) by {
            assert(s.running_ok(w));
        }
        lemma_records_only(s, t);
        assert(t.jobs_unique());
    }
}

/// A normalised event keeps the invariant.
pub proof fn lemma_on_event_inv(s: State, cfg: ConfigView, ev: NormalizedEventView)
    requires
        s.inv(cfg),
    ensures
        s.on_event(cfg, ev).0.inv(cfg),
{
    lemma_on_change_inv(s, cfg, ev.path, ev.at);
    lemma_on_removed_inv(s, cfg, ev.path, ev.at);
}

/// Dispatching a job for a settled path without one keeps the invariant.
pub proof fn lemma_dispatch_inv(s: State, cfg: ConfigView, p: Seq<char>, now: u64)
    requires
        s.inv(cfg),
        s.next_id < u64::MAX,
        s.paths.contains_key(p),
        s.paths[p].state == PathState::Settled,
        s.paths[p].active_job is None || s.paths[p].phase == JobPhase::Backoff,
    ensures
        s.dispatch(p, now).inv(cfg),
{
    let t = s.dispatch(p, now);
    lemma_queue_facts(s, cfg);
    assert forall|i: int| 0 <= i < t.queue.len() implies #[trigger] t.queued_ok(i) by {
        if i < s.queue.len() {
            assert(s.queued_ok(i));
            assert(t.queue[i] == s.queue[i]);
        }
    }
    assert forall|w: int| 0 <= w < t.slots.len() implies #[trigger] t.running_ok(w) by {
        assert(s.running_ok(w));
    }
    assert(t.queue_ordered()) by {
        assert forall|i: int, k: int| 0 <= i < k < t.queue.len() implies (#[trigger] t.queue[i]).id < (
        #[trigger] t.queue[k]).id by {
            assert(t.queue[i] == s.queue[i]);
            if k < s.queue.len() {
                assert(t.queue[k] == s.queue[k]);
            }
        }
    }
    assert(t.no_dangling_job()) by {
        assert forall|q: Seq<char>| #[trigger]
            t.paths.contains_key(q) && t.paths[q].active_job is Some implies {
            &&& t.paths[q].phase == JobPhase::Queued ==> t.in_queue(q)
            &&& t.paths[q].phase == JobPhase::Running ==> t.on_worker(q)
        } by {
            if q == p {
                assert(t.queue[s.queue.len() as int].path == p);
            } else {
                if s.paths[q].phase == JobPhase::Queued {
                    let i = choose|i: int| 0 <= i < s.queue.len() && (#[trigger] s.queue[i]).path == q;
                    assert(t.queue[i] == s.queue[i]);
                }
                assert(s.on_worker(q) ==> t.on_worker(q));
            }
        }
    }
    assert(t.jobs_unique());
}

/// A settle timer keeps the invariant.
pub proof fn lemma_on_settle_timer_inv(s: State, cfg: ConfigView, p: Seq<char>, now: u64)
    requires
        s.inv(cfg),
        s.next_id < u64::MAX,
    ensures
        s.on_settle_timer(cfg, p, now).inv(cfg),
{
    if s.settles(cfg, p, now) {
        let e = s.paths[p];
        let settled = s.with_path(p, TrackedPath { state: PathState::Settled, ..e });
        assert(settled.inv(cfg)) by {
            assert forall|i: int| 0 <= i < settled.queue.len() implies #[trigger] settled.queued_ok(i) by {
                assert(s.queued_ok(i));
            }
            assert forall|w: int| 0 <= w < settled.slots.len() implies #[trigger] settled.running_ok(w) by {
                assert(s.running_ok(w));
            }
            lemma_records_only(s, settled);
            assert(settled.jobs_unique());
        }
        if e.active_job is None {
            lemma_dispatch_inv(settled, cfg, p, now);
        }
    }
}

/// A retry timer keeps the invariant.
pub proof fn lemma_on_retry_timer_inv(s: State, cfg: ConfigView, p: Seq<char>, now: u64)
    requires
        s.inv(cfg),
        s.next_id < u64::MAX,
    ensures
        s.on_retry_timer(p, now).inv(cfg),
{
    if s.retries(p, now) {
        lemma_dispatch_inv(s, cfg, p, now);
    }
}

/// Handing the head of the queue to a worker keeps the invariant.
pub proof fn lemma_on_start_inv(s: State, cfg: ConfigView)
    requires
        s.inv(cfg),
    ensures
        s.on_start().0.inv(cfg),
{
    let t = s.on_start().0;
    lemma_slot_choices(s.slots, 0);
    lemma_queue_facts(s, cfg);
    if t != s {
        let w = first_free(s.slots)->0;
        let job = s.queue[0];
        let p = job.path;
        let e = s.paths[p];
        assert(s.queued_ok(0));
        assert forall|i: int| 0 <= i < t.queue.len() implies #[trigger] t.queued_ok(i) by {
            assert(s.queued_ok(i + 1));
            assert(t.queue[i] == s.queue[i + 1]);
        }
        assert forall|v: int| 0 <= v < t.slots.len() implies #[trigger] t.running_ok(v) by {
            assert(s.running_ok(v));
        }
        assert(t.queue_ordered()) by {
            assert forall|i: int, k: int| 0 <= i < k < t.queue.len() implies (#[trigger] t.queue[i]).id < (
            #[trigger] t.queue[k]).id by {
                assert(t.queue[i] == s.queue[i + 1]);
                assert(t.queue[k] == s.queue[k + 1]);
            }
        }
        assert(t.single_flight()) by {
            assert forall|v: int, u: int|
                0 <= v < t.slots.len() && 0 <= u < t.slots.len() && v != u && (#[trigger] t.slots[v]) is Some && (
                #[trigger] t.slots[u]) is Some implies t.slots[v]->0.path != t.slots[u]->0.path by {
                assert(s.running_ok(v) && s.running_ok(u));
            }
        }
        assert(t.no_dangling_job()) by {
            assert forall|q: Seq<char>| #[trigger]
                t.paths.contains_key(q) && t.paths[q].active_job is Some implies {
                &&& t.paths[q].phase == JobPhase::Queued ==> t.in_queue(q)
                &&& t.paths[q].phase == JobPhase::Running ==> t.on_worker(q)
            } by {
                if q == p {
                    assert(t.slots[w] is Some && t.slots[w]->0.path == p);
                } else {
                    assert(s.paths.contains_key(q));
                    if s.paths[q].phase == JobPhase::Queued {
                        let i = choose|i: int| 0 <= i < s.queue.len() && (#[trigger] s.queue[i]).path == q;
                        assert(t.queue[i - 1] == s.queue[i]);
                    }
                    if s.paths[q].phase == JobPhase::Running {
                        let v = choose|v: int|
                            0 <= v < s.slots.len() && (#[trigger] s.slots[v]) is Some && s.slots[v]->0.path == q;
                        assert(t.slots[v] == s.slots[v]);
                    }
                }
            }
        }
        assert(t.jobs_unique());
    }
}

/// The end of a job keeps the invariant.
pub proof fn lemma_on_outcome_inv(s: State, cfg: ConfigView, id: u64, kind: ResultKind, duration: u64, now: u64)
    requires
        s.inv(cfg),
        s.next_id < u64::MAX,
    ensures
        s.on_outcome(cfg, id, kind, duration, now).0.inv(cfg),
{
    let t = s.on_outcome(cfg, id, kind, duration, now).0;
    lemma_slot_choices(s.slots, id);
    if slot_of(s.slots, id) is Some {
        let w = slot_of(s.slots, id)->0;
        let job = s.slots[w]->0;
        let p = job.path;
        let e = s.paths[p];
        assert(s.running_ok(w));
        let freed = State { slots: s.slots.update(w, None), ..s };
        // The state in which the slot is free and the path has let go of its job.
        let mid = if e.state == PathState::Idle {
            freed.without_path(p)
        } else if e.dirty {
            freed.with_path(p, released(e))
        } else {
            t
        };
        assert(mid.inv(cfg)) by {
            assert forall|i: int| 0 <= i < mid.queue.len() implies #[trigger] mid.queued_ok(i) by {
                assert(s.queued_ok(i));
            }
            assert forall|v: int| 0 <= v < mid.slots.len() implies #[trigger] mid.running_ok(v) by {
                assert(s.running_ok(v));
                if v != w && s.slots[v] is Some {
                    assert(s.slots[v]->0.path != s.slots[w]->0.path);
                }
            }
            assert(mid.single_flight()) by {
                assert forall|v: int, u: int|
                    0 <= v < mid.slots.len() && 0 <= u < mid.slots.len() && v != u && (#[trigger] mid.slots[v]) is Some
                        && (#[trigger] mid.slots[u]) is Some implies mid.slots[v]->0.path != mid.slots[u]->0.path by {
                    assert(s.slots[v] is Some && s.slots[u] is Some);
                }
            }
            assert(mid.no_dangling_job()) by {
                assert forall|q: Seq<char>| #[trigger]
                    mid.paths.contains_key(q) && mid.paths[q].active_job is Some implies {
                    &&& mid.paths[q].phase == JobPhase::Queued ==> mid.in_queue(q)
                    &&& mid.paths[q].phase == JobPhase::Running ==> mid.on_worker(q)
                } by {
                    if q != p {
                        assert(s.paths.contains_key(q));
                        assert(s.in_queue(q) ==> mid.in_queue(q));
                        if s.paths[q].phase == JobPhase::Running {
                            let v = choose|v: int|
                                0 <= v < s.slots.len() && (#[trigger] s.slots[v]) is Some && s.slots[v]->0.path == q;
                            assert(mid.slots[v] == s.slots[v]);
                        }
                    }
                }
            }
            assert(mid.jobs_unique());
        }
        if e.state != PathState::Idle && e.dirty && e.state == PathState::Settled {
            lemma_dispatch_inv(mid, cfg, p, now);
        }
    }
}

/// Dropping a record that may be dropped keeps the invariant.
pub proof fn lemma_on_evict_inv(s: State, cfg: ConfigView, p: Seq<char>)
    requires
        s.inv(cfg),
    ensures
        s.on_evict(p).inv(cfg),
{
    let t = s.on_evict(p);
    if t != s {
        assert forall|i: int| 0 <= i < t.queue.len() implies #[trigger] t.queued_ok(i) by {
            assert(s.queued_ok(i));
        }
        assert forall|w: int| 0 <= w < t.slots.len() implies #[trigger] t.running_ok(w) by {
            assert(s.running_ok(w));
        }
        lemma_records_only(s, t);
        assert(t.jobs_unique());
    }
}

} // verus!
