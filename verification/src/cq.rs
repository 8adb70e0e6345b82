//! The consumer-side view of the ring: a bounded queue of completion
//! entries.
//!
//! The executor delivers results with [`CompletionQueue::push_cqe`]; the
//! consumer peeks at ready results without removing them and then commits
//! consumption with [`CompletionQueue::advance`]. Skipping `advance` leaks
//! queue capacity, so the two are meant to be paired.
//!
//! Waiting until results are ready is the driver's task, not the queue's:
//! in this model nothing arrives unless the executor delivers it, so the
//! one blocking point of the design lives with whoever runs the executor.

use crate::cqe::CQE;
use vstd::prelude::*;

verus! {

/// The completion half of a ring.
pub struct CompletionQueue {
    /// How many results may be ready but not yet consumed.
    pub capacity: usize,
    /// Results delivered and not yet consumed, oldest first.
    pub ready_q: Vec<CQE>,
    /// Whether completion events are also signalled through an event handle.
    pub eventfd: bool,
}

impl CompletionQueue {
    /// The queue never holds more than its capacity.
    pub open spec fn wf(self) -> bool {
        self.ready_q@.len() <= self.capacity
    }

    /// An empty queue with room for `capacity` results.
    pub fn new(capacity: usize) -> (r: CompletionQueue)
        ensures
            r.wf(),
            r.capacity == capacity,
            r.ready_q@ =~= Seq::<CQE>::empty(),
            r.eventfd == false,
    {
        CompletionQueue { capacity, ready_q: Vec::new(), eventfd: false }
    }

    /// How many results are ready.
    pub fn ready(&self) -> (r: usize)
        ensures
            r == self.ready_q@.len(),
    {
        self.ready_q.len()
    }

    /// A copy of the oldest ready result, without consuming it.
    pub fn peek_cqe(&self) -> (r: Option<CQE>)
        ensures
            self.ready_q@.len() == 0 ==> r is None,
            self.ready_q@.len() > 0 ==> r == Some(self.ready_q@[0]),
    {
        if self.ready_q.len() > 0 {
            Some(self.ready_q[0])
        } else {
            None
        }
    }

    /// Copies of the oldest `max` ready results (fewer if fewer are ready),
    /// without consuming them.
    pub fn peek_batch_cqe(&self, max: usize) -> (batch: Vec<CQE>)
        ensures
            batch@ == self.ready_q@.take(min_usize(max, self.ready_q@.len() as usize) as int),
    {
        let n = if max < self.ready_q.len() {
            max
        } else {
            self.ready_q.len()
        };
        let mut batch: Vec<CQE> = Vec::new();
        let mut i: usize = 0;
        while i < n
            invariant
                i <= n,
                n <= self.ready_q@.len(),
                batch@ == self.ready_q@.take(i as int),
            decreases n - i,
        {
            batch.push(self.ready_q[i]);
            proof {
                assert(batch@ =~= self.ready_q@.take(i + 1));
            }
            i = i + 1;
        }
        batch
    }

    /// Commit consumption of the oldest `n` results, previously peeked.
    /// Advancing past more results than are ready is a caller error, ruled
    /// out here rather than left undefined.
    pub fn advance(&mut self, n: usize)
        requires
            n <= old(self).ready_q@.len(),
        ensures
            final(self).ready_q@ == old(self).ready_q@.skip(n as int),
            final(self).capacity == old(self).capacity,
            final(self).eventfd == old(self).eventfd,
    {
        let mut i: usize = 0;
        while i < n
            invariant
                i <= n,
                n <= old(self).ready_q@.len(),
                self.ready_q@ == old(self).ready_q@.skip(i as int),
                self.capacity == old(self).capacity,
                self.eventfd == old(self).eventfd,
            decreases n - i,
        {
            self.ready_q.remove(0);
            proof {
                assert(self.ready_q@ =~= old(self).ready_q@.skip(i + 1));
            }
            i = i + 1;
        }
    }

    /// The executor's side of the handoff: deliver one result. Returns
    /// `false`, and changes nothing, when the queue is full.
    pub fn push_cqe(&mut self, cqe: &CQE) -> (accepted: bool)
        requires
            old(self).wf(),
        ensures
            final(self).wf(),
            accepted == (old(self).ready_q@.len() < old(self).capacity),
            accepted ==> final(self).ready_q@ == old(self).ready_q@.push(*cqe),
            !accepted ==> final(self).ready_q@ == old(self).ready_q@,
            final(self).capacity == old(self).capacity,
            final(self).eventfd == old(self).eventfd,
    {
        if self.ready_q.len() < self.capacity {
            self.ready_q.push(*cqe);
            true
        } else {
            false
        }
    }

    /// Whether completion events are signalled through an event handle.
    pub fn is_eventfd_enabled(&self) -> (r: bool)
        ensures
            r == self.eventfd,
    {
        self.eventfd
    }

    /// Switch event-handle signalling on or off.
    pub fn toggle_eventfd(&mut self, enabled: bool)
        ensures
            *final(self) == (CompletionQueue { eventfd: enabled, ..*old(self) }),
    {
        self.eventfd = enabled;
    }
}

/// The smaller of two machine words.
pub open spec fn min_usize(a: usize, b: usize) -> usize {
    if a < b {
        a
    } else {
        b
    }
}

} // verus!
