//! The tracked paths: one record per path the pipeline currently knows.

use vstd::prelude::*;

verus! {

/// Where a path stands in its settle cycle.
#[derive(Clone, Copy, Debug, PartialEq, Eq, Structural)]
pub enum PathState {
    /// Removed on disk while its job was still queued or running; the record goes when
    /// that job does. A path without a record is idle too.
    Idle,
    /// Events were seen; waiting for the quiet period to end.
    Pending,
    /// Quiet for the whole period and handed to the dispatch gate.
    Settled,
    /// The last cycle ended in a terminal failure; only a new change starts another.
    Failed,
}

/// What the path's job is doing; meaningful while the record names a job.
#[derive(Clone, Copy, Debug, PartialEq, Eq, Structural)]
pub enum JobPhase {
    /// In the queue, or held before it while the queue is full.
    Queued,
    /// Claimed by a worker.
    Running,
    /// Failed transiently; the next attempt waits for its retry timer.
    Backoff,
}

/// What the pipeline knows of one path. The path itself is the key under which the
/// record is kept.
#[derive(Clone, Copy, Debug)]
pub struct TrackedPath {
    pub state: PathState,
    /// Time of the latest event that was taken into account.
    pub last_event_at: u64,
    /// The one job of this path that is queued, running or waiting for its retry.
    pub active_job: Option<u64>,
    pub phase: JobPhase,
    /// Retries used up in the current settle cycle.
    pub retry_count: u32,
    /// When the retry timer runs out; meaningful in the backoff phase.
    pub retry_due: u64,
    /// The path changed after its running job started: that job's outcome is not final.
    pub dirty: bool,
}

impl TrackedPath {
    /// The record of a path at its first event.
    pub open spec fn fresh_spec(at: u64) -> TrackedPath {
        TrackedPath {
            state: PathState::Pending,
            last_event_at: at,
            active_job: None,
            phase: JobPhase::Queued,
            retry_count: 0,
            retry_due: 0,
            dirty: false,
        }
    }

    /// The record of a path at its first event.
    #[verifier::when_used_as_spec(fresh_spec)]
    pub fn fresh(at: u64) -> (t: TrackedPath)
        ensures
            t == TrackedPath::fresh_spec(at),
    {
        TrackedPath {
            state: PathState::Pending,
            last_event_at: at,
            active_job: None,
            phase: JobPhase::Queued,
            retry_count: 0,
            retry_due: 0,
            dirty: false,
        }
    }
}

/// The map from paths to their records.
#[derive(Debug)]
pub struct Tracker {
    keys: Vec<String>,
    records: Vec<TrackedPath>,
}

/// Whether `i` is a position of `keys` that holds `p`.
pub open spec fn holds_at(keys: Seq<String>, i: int, p: Seq<char>) -> bool {
    0 <= i < keys.len() && keys[i]@ == p
}

/// A position of `keys` that holds `p`.
pub open spec fn position_of(keys: Seq<String>, p: Seq<char>) -> int {
    choose|i: int| holds_at(keys, i, p)
}

/// No path is held twice.
pub open spec fn distinct(keys: Seq<String>) -> bool {
    forall|i: int, j: int| 0 <= i < keys.len() && 0 <= j < keys.len() && i != j ==> keys[i]@ != keys[j]@
}

/// The map that parallel sequences of keys and records stand for.
pub open spec fn as_map(keys: Seq<String>, records: Seq<TrackedPath>) -> Map<Seq<char>, TrackedPath> {
    Map::new(
        |p: Seq<char>| exists|i: int| holds_at(keys, i, p),
        |p: Seq<char>| records[position_of(keys, p)],
    )
}

proof fn lemma_position(keys: Seq<String>, i: int)
    requires
        distinct(keys),
        0 <= i < keys.len(),
    ensures
        position_of(keys, keys[i]@) == i,
{
    assert(holds_at(keys, i, keys[i]@));
}

proof fn lemma_as_map_update(keys: Seq<String>, records: Seq<TrackedPath>, i: int, e: TrackedPath)
    requires
        distinct(keys),
        keys.len() == records.len(),
        0 <= i < keys.len(),
    ensures
        as_map(keys, records.update(i, e)) == as_map(keys, records).insert(keys[i]@, e),
{
    let a = as_map(keys, records.update(i, e));
    let b = as_map(keys, records).insert(keys[i]@, e);
    assert(holds_at(keys, i, keys[i]@));
    assert forall|p: Seq<char>| a.contains_key(p) <==> b.contains_key(p) by {}
    assert forall|p: Seq<char>| a.contains_key(p) implies a[p] == b[p] by {
        let j = position_of(keys, p);
        assert(holds_at(keys, j, p));
        if p == keys[i]@ {
            lemma_position(keys, i);
        }
    }
    assert(a =~= b);
}

proof fn lemma_as_map_push(keys: Seq<String>, records: Seq<TrackedPath>, k: String, e: TrackedPath)
    requires
        distinct(keys),
        keys.len() == records.len(),
        !as_map(keys, records).contains_key(k@),
    ensures
        distinct(keys.push(k)),
        as_map(keys.push(k), records.push(e)) == as_map(keys, records).insert(k@, e),
{
    let keys2 = keys.push(k);
    let a = as_map(keys2, records.push(e));
    let b = as_map(keys, records).insert(k@, e);
    assert forall|i: int| 0 <= i < keys.len() implies keys[i]@ != k@ by {
        if keys[i]@ == k@ {
            assert(holds_at(keys, i, k@));
        }
    }
    assert(distinct(keys2));
    assert(holds_at(keys2, keys.len() as int, k@));
    assert forall|p: Seq<char>| a.contains_key(p) <==> b.contains_key(p) by {
        if a.contains_key(p) {
            let j = choose|j: int| holds_at(keys2, j, p);
            if j < keys.len() {
                assert(holds_at(keys, j, p));
            }
        }
        if b.contains_key(p) && p != k@ {
            let j = choose|j: int| holds_at(keys, j, p);
            assert(holds_at(keys2, j, p));
        }
    }
    assert forall|p: Seq<char>| a.contains_key(p) implies a[p] == b[p] by {
        let j = position_of(keys2, p);
        assert(holds_at(keys2, j, p));
        if p == k@ {
            lemma_position(keys2, keys.len() as int);
        } else {
            assert(holds_at(keys, j, p));
            lemma_position(keys, j);
        }
    }
    assert(a =~= b);
}

proof fn lemma_as_map_remove(keys: Seq<String>, records: Seq<TrackedPath>, i: int)
    requires
        distinct(keys),
        keys.len() == records.len(),
        0 <= i < keys.len(),
    ensures
        distinct(keys.remove(i)),
        as_map(keys.remove(i), records.remove(i)) == as_map(keys, records).remove(keys[i]@),
{
    let keys2 = keys.remove(i);
    let records2 = records.remove(i);
    let a = as_map(keys2, records2);
    let b = as_map(keys, records).remove(keys[i]@);
    assert forall|x: int, y: int| 0 <= x < keys2.len() && 0 <= y < keys2.len() && x != y implies keys2[x]@
        != keys2[y]@ by {
        let x0 = if x < i { x } else { x + 1 };
        let y0 = if y < i { y } else { y + 1 };
        assert(keys2[x] == keys[x0] && keys2[y] == keys[y0]);
    }
    assert forall|p: Seq<char>| a.contains_key(p) <==> b.contains_key(p) by {
        if a.contains_key(p) {
            let j = choose|j: int| holds_at(keys2, j, p);
            let j0 = if j < i { j } else { j + 1 };
            assert(holds_at(keys, j0, p));
        }
        if b.contains_key(p) {
            let j = choose|j: int| holds_at(keys, j, p);
            let j2 = if j < i { j } else { j - 1 };
            assert(holds_at(keys2, j2, p));
        }
    }
    assert forall|p: Seq<char>| a.contains_key(p) implies a[p] == b[p] by {
        let j = position_of(keys2, p);
        assert(holds_at(keys2, j, p));
        let j0 = if j < i { j } else { j + 1 };
        assert(holds_at(keys, j0, p));
        lemma_position(keys, j0);
    }
    assert(a =~= b);
}

impl View for Tracker {
    type V = Map<Seq<char>, TrackedPath>;

    closed spec fn view(&self) -> Map<Seq<char>, TrackedPath> {
        as_map(self.keys@, self.records@)
    }
}

impl Tracker {
    /// Every path has one record and is held once.
    pub closed spec fn wf(&self) -> bool {
        &&& self.keys.len() == self.records.len()
        &&& distinct(self.keys@)
    }

    /// A tracker that knows no path.
    pub fn new() -> (t: Tracker)
        ensures
            t.wf(),
            t@ == Map::<Seq<char>, TrackedPath>::empty(),
    {
        let t = Tracker { keys: Vec::new(), records: Vec::new() };
        assert(t@ =~= Map::<Seq<char>, TrackedPath>::empty());
        t
    }

    fn find(&self, path: &String) -> (r: Option<usize>)
        requires
            self.wf(),
        ensures
            match r {
                Some(i) => i < self.keys.len() && self.keys@[i as int]@ == path@ && self@.contains_key(path@)
                    && self@[path@] == self.records@[i as int],
                None => !self@.contains_key(path@),
            },
    {
        let mut i: usize = 0;
        while i < self.keys.len()
            invariant
                i <= self.keys.len(),
                self.wf(),
                forall|k: int| 0 <= k < i ==> self.keys@[k]@ != path@,
            decreases self.keys.len() - i,
        {
            if self.keys[i] == *path {
                proof {
                    assert(holds_at(self.keys@, i as int, path@));
                    lemma_position(self.keys@, i as int);
                }
                return Some(i);
            }
            i = i + 1;
        }
        None
    }

    /// The record of `path`, if it is tracked.
    pub fn get(&self, path: &String) -> (r: Option<TrackedPath>)
        requires
            self.wf(),
        ensures
            r == (if self@.contains_key(path@) {
                Some(self@[path@])
            } else {
                None
            }),
    {
        match self.find(path) {
            Some(i) => Some(self.records[i]),
            None => None,
        }
    }

    /// Whether `path` is tracked.
    pub fn contains(&self, path: &String) -> (r: bool)
        requires
            self.wf(),
        ensures
            r == self@.contains_key(path@),
    {
        self.find(path).is_some()
    }

    /// Sets the record of `path`, tracking the path if it was not.
    pub fn insert(&mut self, path: &String, record: TrackedPath)
        requires
            old(self).wf(),
        ensures
            final(self).wf(),
            final(self)@ == old(self)@.insert(path@, record),
    {
        match self.find(path) {
            Some(i) => {
                proof {
                    lemma_as_map_update(self.keys@, self.records@, i as int, record);
                }
                self.records[i] = record;
            },
            None => {
                let key = path.clone();
                proof {
                    lemma_as_map_push(self.keys@, self.records@, key, record);
                }
                self.keys.push(key);
                self.records.push(record);
            },
        }
    }

    /// Forgets `path`.
    pub fn remove(&mut self, path: &String)
        requires
            old(self).wf(),
        ensures
            final(self).wf(),
            final(self)@ == old(self)@.remove(path@),
    {
        match self.find(path) {
            Some(i) => {
                proof {
                    lemma_as_map_remove(self.keys@, self.records@, i as int);
                }
                self.keys.remove(i);
                self.records.remove(i);
            },
            None => {
                assert(self@ =~= old(self)@.remove(path@));
            },
        }
    }
}

} // verus!
