use opus_daemon::job::{Job, JobResult, ResultKind};
use opus_daemon::pool::WorkerPool;
use opus_daemon::queue::JobQueue;
use opus_daemon::tracker::{JobPhase, PathState, TrackedPath, Tracker};

fn job(id: u64, path: &str) -> Job {
    Job { id, path: path.to_string(), attempt: 1, enqueued_at: 10 * id }
}

#[test]
fn job_duplicate_keeps_every_field() {
    let j = Job { id: 7, path: "a.flac".to_string(), attempt: 3, enqueued_at: 99 };
    let d = j.duplicate();
    assert_eq!(d.id, 7);
    assert_eq!(d.path, "a.flac");
    assert_eq!(d.attempt, 3);
    assert_eq!(d.enqueued_at, 99);
}

#[test]
fn result_kinds() {
    assert_eq!(JobResult::Success("out/a.opus".to_string()).kind(), ResultKind::Success);
    assert_eq!(JobResult::TransientFailure("busy".to_string()).kind(), ResultKind::TransientFailure);
    assert_eq!(JobResult::PermanentFailure("not audio".to_string()).kind(), ResultKind::PermanentFailure);
}

#[test]
fn queue_is_first_in_first_out() {
    let mut q = JobQueue::new(8);
    assert!(q.is_empty());
    assert!(q.take().is_none());
    assert!(q.offer(job(1, "a")));
    assert!(q.offer(job(2, "b")));
    assert!(q.offer(job(3, "c")));
    assert!(!q.is_empty());
    assert_eq!(q.accepted_len(), 3);
    assert_eq!(q.blocked_len(), 0);
    assert_eq!(q.take().unwrap().id, 1);
    assert_eq!(q.take().unwrap().id, 2);
    assert!(q.offer(job(4, "d")));
    assert_eq!(q.take().unwrap().id, 3);
    assert_eq!(q.take().unwrap().id, 4);
    assert!(q.take().is_none());
    assert!(q.is_empty());
}

#[test]
fn full_queue_holds_producers_back_and_drops_nothing() {
    let mut q = JobQueue::new(2);
    assert_eq!(q.limit(), 2);
    let accepted: Vec<bool> = (1..=5).map(|i| q.offer(job(i, "p"))).collect();
    assert_eq!(accepted, vec![true, true, false, false, false]);
    assert_eq!(q.accepted_len(), 2);
    assert_eq!(q.blocked_len(), 3);
    // a free slot lets exactly one waiting producer in
    assert_eq!(q.take().unwrap().id, 1);
    assert_eq!(q.accepted_len(), 2);
    assert_eq!(q.blocked_len(), 2);
    // a newcomer goes behind those that wait
    assert!(!q.offer(job(6, "p")));
    let rest: Vec<u64> = std::iter::from_fn(|| q.take().map(|j| j.id)).collect();
    assert_eq!(rest, vec![2, 3, 4, 5, 6]);
    assert_eq!(q.accepted_len(), 0);
    assert_eq!(q.blocked_len(), 0);
}

#[test]
fn queue_of_one() {
    let mut q = JobQueue::new(1);
    assert!(q.offer(job(1, "a")));
    assert!(!q.offer(job(2, "b")));
    assert_eq!(q.accepted_len(), 1);
    assert_eq!(q.blocked_len(), 1);
    let j = q.take().unwrap();
    assert_eq!((j.id, j.path.as_str(), j.attempt, j.enqueued_at), (1, "a", 1, 10));
    assert_eq!(q.accepted_len(), 1);
    assert_eq!(q.blocked_len(), 0);
    assert_eq!(q.take().unwrap().id, 2);
    assert!(q.is_empty());
}

#[test]
fn pool_starts_free() {
    let p = WorkerPool::new(3);
    assert_eq!(p.size(), 3);
    assert_eq!(p.busy(), 0);
    assert_eq!(p.free_slot(), Some(0));
    assert_eq!(p.find(0), None);
    assert!(p.job_at(0).is_none());
}

#[test]
fn pool_without_workers_has_no_free_slot() {
    let p = WorkerPool::new(0);
    assert_eq!(p.size(), 0);
    assert_eq!(p.free_slot(), None);
    assert_eq!(p.busy(), 0);
}

#[test]
fn pool_assign_find_release() {
    let mut p = WorkerPool::new(3);
    p.assign(0, job(5, "a"));
    assert_eq!(p.free_slot(), Some(1));
    p.assign(1, job(6, "b"));
    p.assign(2, job(7, "c"));
    assert_eq!(p.free_slot(), None);
    assert_eq!(p.busy(), 3);
    assert_eq!(p.find(6), Some(1));
    assert_eq!(p.find(7), Some(2));
    assert_eq!(p.find(8), None);
    assert_eq!(p.job_at(2).unwrap().path, "c");
    let j = p.release(1).unwrap();
    assert_eq!((j.id, j.path.as_str()), (6, "b"));
    assert_eq!(p.busy(), 2);
    assert_eq!(p.free_slot(), Some(1));
    assert_eq!(p.find(6), None);
    assert!(p.release(1).is_none());
    assert_eq!(p.busy(), 2);
    assert_eq!(p.release(0).unwrap().id, 5);
    assert_eq!(p.free_slot(), Some(0));
}

#[test]
fn fresh_record() {
    let t = TrackedPath::fresh(42);
    assert_eq!(t.state, PathState::Pending);
    assert_eq!(t.last_event_at, 42);
    assert_eq!(t.active_job, None);
    assert_eq!(t.phase, JobPhase::Queued);
    assert_eq!(t.retry_count, 0);
    assert_eq!(t.retry_due, 0);
    assert!(!t.dirty);
}

#[test]
fn tracker_insert_get_remove() {
    let mut t = Tracker::new();
    let a = "a.flac".to_string();
    let b = "b.flac".to_string();
    assert!(!t.contains(&a));
    assert!(t.get(&a).is_none());
    t.insert(&a, TrackedPath::fresh(1));
    t.insert(&b, TrackedPath::fresh(2));
    assert!(t.contains(&a));
    assert_eq!(t.get(&a).unwrap().last_event_at, 1);
    assert_eq!(t.get(&b).unwrap().last_event_at, 2);
    // a second insert replaces the record
    let mut r = TrackedPath::fresh(3);
    r.state = PathState::Settled;
    r.active_job = Some(9);
    t.insert(&a, r);
    assert_eq!(t.get(&a).unwrap().last_event_at, 3);
    assert_eq!(t.get(&a).unwrap().state, PathState::Settled);
    assert_eq!(t.get(&a).unwrap().active_job, Some(9));
    assert_eq!(t.get(&b).unwrap().last_event_at, 2);
    t.remove(&a);
    assert!(!t.contains(&a));
    assert!(t.get(&a).is_none());
    assert_eq!(t.get(&b).unwrap().last_event_at, 2);
    // removing what is not there changes nothing
    t.remove(&a);
    assert!(t.contains(&b));
    t.remove(&b);
    assert!(!t.contains(&b));
}
