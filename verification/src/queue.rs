//! The job queue: a bounded first-in-first-out buffer, with the producers that found it
//! full lined up behind it.
//!
//! A producer that meets a full buffer is not turned away and its job is not dropped:
//! the job waits, in arrival order, and moves into the buffer as soon as a slot frees.
//! Taken together, buffer and waiting line are one sequence in arrival order; that
//! sequence is the view of the queue.

use vstd::prelude::*;
use std::collections::VecDeque;
use crate::job::{Job, JobView, job_views};

verus! {

/// The bounded job queue.
#[derive(Debug)]
pub struct JobQueue {
    buffer: VecDeque<Job>,
    waiting: VecDeque<Job>,
    capacity: usize,
}

impl View for JobQueue {
    type V = Seq<JobView>;

    closed spec fn view(&self) -> Seq<JobView> {
        job_views(self.buffer@ + self.waiting@)
    }
}

impl JobQueue {
    /// The number of jobs the buffer holds at most.
    pub closed spec fn capacity(&self) -> nat {
        self.capacity as nat
    }

    /// The buffer is never over capacity, and nobody waits while it has room.
    pub closed spec fn wf(&self) -> bool {
        &&& self.capacity >= 1
        &&& self.buffer@.len() <= self.capacity
        &&& self.waiting@.len() > 0 ==> self.buffer@.len() == self.capacity
    }

    /// Number of jobs in the buffer: all of them, up to the capacity.
    pub open spec fn accepted_count(&self) -> nat {
        if self@.len() <= self.capacity() {
            self@.len()
        } else {
            self.capacity()
        }
    }

    /// Number of jobs held back because the buffer is full.
    pub open spec fn blocked_count(&self) -> nat {
        (self@.len() - self.accepted_count()) as nat
    }

    /// The buffer never holds more than its capacity; every job is either in the
    /// buffer or held back; and jobs are held back only while the buffer is full.
    pub proof fn law_bounded(&self)
        requires
            self.wf(),
        ensures
            self.accepted_count() <= self.capacity(),
            self.accepted_count() + self.blocked_count() == self@.len(),
            self.blocked_count() > 0 ==> self.accepted_count() == self.capacity(),
            self.capacity() >= 1,
    {
    }

    /// An empty queue with room for `capacity` jobs.
    pub fn new(capacity: usize) -> (q: JobQueue)
        requires
            capacity >= 1,
        ensures
            q.wf(),
            q.capacity() == capacity,
            q@ == Seq::<JobView>::empty(),
    {
        let q = JobQueue { buffer: VecDeque::new(), waiting: VecDeque::new(), capacity };
        assert(q@ =~= Seq::<JobView>::empty());
        q
    }

    /// Appends `job`. Returns whether it went straight into the buffer; if not, it
    /// waits its turn behind the buffer.
    pub fn offer(&mut self, job: Job) -> (accepted: bool)
        requires
            old(self).wf(),
        ensures
            final(self).wf(),
            final(self).capacity() == old(self).capacity(),
            final(self)@ == old(self)@.push(job@),
            accepted == (old(self)@.len() < old(self).capacity()),
    {
        if self.buffer.len() < self.capacity {
            assert(self.waiting@.len() == 0);
            self.buffer.push_back(job);
            assert(self@ =~= old(self)@.push(job@));
            true
        } else {
            self.waiting.push_back(job);
            assert(self@ =~= old(self)@.push(job@));
            false
        }
    }

    /// Removes the job that arrived first, if there is one; the first of the waiting
    /// jobs then moves into the buffer.
    pub fn take(&mut self) -> (r: Option<Job>)
        requires
            old(self).wf(),
        ensures
            final(self).wf(),
            final(self).capacity() == old(self).capacity(),
            match r {
                Some(j) => old(self)@.len() > 0 && j@ == old(self)@[0] && final(self)@ == old(self)@.drop_first(),
                None => old(self)@.len() == 0 && final(self)@ == old(self)@,
            },
    {
        let head = self.buffer.pop_front();
        match head {
            Some(j) => {
                let next = self.waiting.pop_front();
                match next {
                    Some(w) => {
                        self.buffer.push_back(w);
                    },
                    None => {},
                }
                assert(self@ =~= old(self)@.drop_first());
                Some(j)
            },
            None => {
                assert(self@ =~= old(self)@);
                None
            },
        }
    }

    /// Whether no job is in the queue.
    pub fn is_empty(&self) -> (r: bool)
        requires
            self.wf(),
        ensures
            r == (self@.len() == 0),
    {
        self.buffer.len() == 0
    }

    /// Number of jobs in the buffer.
    pub fn accepted_len(&self) -> (n: usize)
        requires
            self.wf(),
        ensures
            n == self.accepted_count(),
            n <= self.capacity(),
    {
        self.buffer.len()
    }

    /// Number of jobs held back because the buffer is full.
    pub fn blocked_len(&self) -> (n: usize)
        requires
            self.wf(),
        ensures
            n == self.blocked_count(),
    {
        self.waiting.len()
    }

    /// The number of jobs the buffer holds at most.
    pub fn limit(&self) -> (n: usize)
        ensures
            n == self.capacity(),
    {
        self.capacity
    }
}

} // verus!
