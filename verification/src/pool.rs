//! The worker pool: a fixed number of slots, each free or holding the job it runs.

use vstd::prelude::*;
use crate::job::{Job, JobView, job_opt_view};

verus! {

/// The slots of the workers.
#[derive(Debug)]
pub struct WorkerPool {
    slots: Vec<Option<Job>>,
}

/// Whether `w` is the first free slot.
pub open spec fn is_first_free(slots: Seq<Option<JobView>>, w: int) -> bool {
    &&& 0 <= w < slots.len()
    &&& slots[w] is None
    &&& forall|k: int| 0 <= k < w ==> slots[k] is Some
}

/// The first free slot, if any slot is free.
pub open spec fn first_free(slots: Seq<Option<JobView>>) -> Option<int> {
    if exists|w: int| is_first_free(slots, w) {
        Some(choose|w: int| is_first_free(slots, w))
    } else {
        None
    }
}

/// Whether slot `w` runs the job `id`.
pub open spec fn runs(slots: Seq<Option<JobView>>, w: int, id: u64) -> bool {
    0 <= w < slots.len() && slots[w] is Some && slots[w]->0.id == id
}

/// Whether `w` is the first slot that runs the job `id`.
pub open spec fn is_first_running(slots: Seq<Option<JobView>>, w: int, id: u64) -> bool {
    &&& runs(slots, w, id)
    &&& forall|k: int| 0 <= k < w ==> !runs(slots, k, id)
}

/// The first slot that runs the job `id`, if one does.
pub open spec fn slot_of(slots: Seq<Option<JobView>>, id: u64) -> Option<int> {
    if exists|w: int| is_first_running(slots, w, id) {
        Some(choose|w: int| is_first_running(slots, w, id))
    } else {
        None
    }
}

/// The first free slot is the one slot that is free with none free before it.
pub proof fn lemma_first_free(slots: Seq<Option<JobView>>, w: int)
    requires
        is_first_free(slots, w),
    ensures
        first_free(slots) == Some(w),
{
    let c = choose|c: int| is_first_free(slots, c);
    assert(is_first_free(slots, c));
    if c < w {
        assert(slots[c] is Some);
    } else if w < c {
        assert(slots[w] is Some);
    }
}

/// With every slot taken there is no first free one.
pub proof fn lemma_none_free(slots: Seq<Option<JobView>>)
    requires
        forall|k: int| 0 <= k < slots.len() ==> slots[k] is Some,
    ensures
        first_free(slots) is None,
{
}

/// The slot of a job is the one slot that runs it with none before it.
pub proof fn lemma_slot_of(slots: Seq<Option<JobView>>, w: int, id: u64)
    requires
        is_first_running(slots, w, id),
    ensures
        slot_of(slots, id) == Some(w),
{
    let c = choose|c: int| is_first_running(slots, c, id);
    assert(is_first_running(slots, c, id));
    if c < w {
        assert(!runs(slots, c, id));
    } else if w < c {
        assert(!runs(slots, w, id));
    }
}

/// A job that no slot runs has no slot.
pub proof fn lemma_no_slot(slots: Seq<Option<JobView>>, id: u64)
    requires
        forall|k: int| 0 <= k < slots.len() ==> !runs(slots, k, id),
    ensures
        slot_of(slots, id) is None,
{
    if exists|w: int| is_first_running(slots, w, id) {
        let w = choose|w: int| is_first_running(slots, w, id);
        assert(runs(slots, w, id));
    }
}

/// What first_free and slot_of answer is what their names say.
pub proof fn lemma_slot_choices(slots: Seq<Option<JobView>>, id: u64)
    ensures
        first_free(slots) matches Some(w) ==> is_first_free(slots, w),
        first_free(slots) is None ==> forall|k: int| 0 <= k < slots.len() ==> slots[k] is Some,
        slot_of(slots, id) matches Some(w) ==> is_first_running(slots, w, id),
        slot_of(slots, id) is None ==> forall|k: int| 0 <= k < slots.len() ==> !runs(slots, k, id),
{
    if first_free(slots) is None {
        lemma_least_free(slots, slots.len() as int);
    }
    if slot_of(slots, id) is None {
        lemma_least_running(slots, slots.len() as int, id);
    }
}

proof fn lemma_least_free(slots: Seq<Option<JobView>>, n: int)
    requires
        0 <= n <= slots.len(),
        !exists|w: int| is_first_free(slots, w),
    ensures
        forall|k: int| 0 <= k < n ==> slots[k] is Some,
    decreases n,
{
    if n > 0 {
        lemma_least_free(slots, n - 1);
        if slots[n - 1] is None {
            assert(is_first_free(slots, n - 1));
        }
    }
}

proof fn lemma_least_running(slots: Seq<Option<JobView>>, n: int, id: u64)
    requires
        0 <= n <= slots.len(),
        !exists|w: int| is_first_running(slots, w, id),
    ensures
        forall|k: int| 0 <= k < n ==> !runs(slots, k, id),
    decreases n,
{
    if n > 0 {
        lemma_least_running(slots, n - 1, id);
        if runs(slots, n - 1, id) {
            assert(is_first_running(slots, n - 1, id));
        }
    }
}

impl View for WorkerPool {
    type V = Seq<Option<JobView>>;

    closed spec fn view(&self) -> Seq<Option<JobView>> {
        Seq::new(self.slots@.len(), |i: int| job_opt_view(self.slots@[i]))
    }
}

impl WorkerPool {
    /// A pool of `workers` free slots.
    pub fn new(workers: usize) -> (p: WorkerPool)
        ensures
            p@ == Seq::new(workers as nat, |i: int| None::<JobView>),
    {
        let mut slots: Vec<Option<Job>> = Vec::new();
        let mut i: usize = 0;
        while i < workers
            invariant
                i <= workers,
                slots.len() == i,
                forall|k: int| 0 <= k < i ==> slots@[k] is None,
            decreases workers - i,
        {
            slots.push(None);
            i = i + 1;
        }
        let p = WorkerPool { slots };
        assert(p@ =~= Seq::new(workers as nat, |i: int| None::<JobView>));
        p
    }

    /// Number of workers.
    pub fn size(&self) -> (n: usize)
        ensures
            n == self@.len(),
    {
        self.slots.len()
    }

    /// The first free slot, if any.
    pub fn free_slot(&self) -> (r: Option<usize>)
        ensures
            match r {
                Some(w) => first_free(self@) == Some(w as int) && w < self@.len(),
                None => first_free(self@) is None,
            },
    {
        let mut i: usize = 0;
        while i < self.slots.len()
            invariant
                i <= self.slots.len(),
                forall|k: int| 0 <= k < i ==> self@[k] is Some,
            decreases self.slots.len() - i,
        {
            if self.slots[i].is_none() {
                proof {
                    lemma_first_free(self@, i as int);
                }
                return Some(i);
            }
            i = i + 1;
        }
        proof {
            lemma_none_free(self@);
        }
        None
    }

    /// The slot that runs the job `id`, if one does.
    pub fn find(&self, id: u64) -> (r: Option<usize>)
        ensures
            match r {
                Some(w) => slot_of(self@, id) == Some(w as int) && w < self@.len(),
                None => slot_of(self@, id) is None,
            },
    {
        let mut i: usize = 0;
        while i < self.slots.len()
            invariant
                i <= self.slots.len(),
                forall|k: int| 0 <= k < i ==> !runs(self@, k, id),
            decreases self.slots.len() - i,
        {
            let hit = match &self.slots[i] {
                Some(j) => j.id == id,
                None => false,
            };
            if hit {
                proof {
                    lemma_slot_of(self@, i as int, id);
                }
                return Some(i);
            }
            i = i + 1;
        }
        proof {
            lemma_no_slot(self@, id);
        }
        None
    }

    /// Number of slots that hold a job.
    pub fn busy(&self) -> (n: usize)
        ensures
            n == self@.filter(|s: Option<JobView>| s is Some).len(),
    {
        let mut n: usize = 0;
        let mut i: usize = 0;
        while i < self.slots.len()
            invariant
                i <= self.slots.len(),
                n <= i,
                n == self@.take(i as int).filter(|s: Option<JobView>| s is Some).len(),
            decreases self.slots.len() - i,
        {
            proof {
                let pred = |s: Option<JobView>| s is Some;
                let a = self@.take(i as int);
                let b = self@.take(i + 1);
                assert(b =~= a.push(self@[i as int]));
                assert(b.drop_last() =~= a);
                reveal(Seq::filter);
            }
            if self.slots[i].is_some() {
                n = n + 1;
            }
            i = i + 1;
        }
        assert(self@.take(i as int) =~= self@);
        n
    }

    /// A copy of the job that slot `worker` holds, if it holds one.
    pub fn job_at(&self, worker: usize) -> (r: Option<Job>)
        requires
            worker < self@.len(),
        ensures
            job_opt_view(r) == self@[worker as int],
    {
        match &self.slots[worker] {
            Some(j) => Some(j.duplicate()),
            None => None,
        }
    }

    /// Puts `job` on the free slot `worker`.
    pub fn assign(&mut self, worker: usize, job: Job)
        requires
            worker < old(self)@.len(),
            old(self)@[worker as int] is None,
        ensures
            final(self)@ == old(self)@.update(worker as int, Some(job@)),
    {
        self.slots[worker] = Some(job);
        assert(self@ =~= old(self)@.update(worker as int, Some(job@)));
    }

    /// Frees the slot `worker` and hands back the job it held, if it held one.
    pub fn release(&mut self, worker: usize) -> (r: Option<Job>)
        requires
            worker < old(self)@.len(),
        ensures
            final(self)@ == old(self)@.update(worker as int, None),
            job_opt_view(r) == old(self)@[worker as int],
    {
        let r = self.slots[worker].take();
        assert(self@ =~= old(self)@.update(worker as int, None));
        r
    }
}

} // verus!
