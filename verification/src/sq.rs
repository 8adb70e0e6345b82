//! The producer-side view of the ring: a bounded queue of prepared
//! submission entries.
//!
//! An entry is first *prepared* (it occupies one of the `capacity` slots),
//! then *flushed* in a batch by [`SubmissionQueue::submit`], which hands it
//! to the executor and frees its slot. The executor's side of the handoff
//! is [`SubmissionQueue::take_flushed`]: whoever performs the operations
//! removes the flushed entries there, in the order they were flushed.

use crate::sqe::SQE;
use vstd::prelude::*;

verus! {

/// The submission half of a ring.
pub struct SubmissionQueue {
    /// How many entries may be prepared but not yet flushed.
    pub capacity: usize,
    /// Entries prepared and waiting for the next flush, oldest first.
    pub prepared_q: Vec<SQE>,
    /// Entries flushed but not yet taken by the executor, oldest first.
    pub flushed_q: Vec<SQE>,
}

impl SubmissionQueue {
    /// The queues never outgrow what a flush can hand over.
    pub open spec fn wf(self) -> bool {
        self.prepared_q@.len() <= self.capacity
    }

    /// An empty queue with `capacity` slots.
    pub fn new(capacity: usize) -> (r: SubmissionQueue)
        ensures
            r.wf(),
            r.capacity == capacity,
            r.prepared_q@ =~= Seq::<SQE>::empty(),
            r.flushed_q@ =~= Seq::<SQE>::empty(),
    {
        SubmissionQueue { capacity, prepared_q: Vec::new(), flushed_q: Vec::new() }
    }

    /// How many entries are prepared but not yet flushed.
    pub fn prepared(&self) -> (r: usize)
        ensures
            r == self.prepared_q@.len(),
    {
        self.prepared_q.len()
    }

    /// How many submission slots are free.
    pub fn space_left(&self) -> (r: usize)
        requires
            self.wf(),
        ensures
            r == self.capacity - self.prepared_q@.len(),
    {
        self.capacity - self.prepared_q.len()
    }

    /// Place a fully prepared entry into a free slot. Returns `false`, and
    /// changes nothing, when every slot is taken: that is the backpressure
    /// signal, not an error.
    pub fn push_sqe(&mut self, sqe: &SQE) -> (accepted: bool)
        requires
            old(self).wf(),
        ensures
            final(self).wf(),
            accepted == (old(self).prepared_q@.len() < old(self).capacity),
            accepted ==> final(self).prepared_q@ == old(self).prepared_q@.push(*sqe),
            !accepted ==> final(self).prepared_q@ == old(self).prepared_q@,
            final(self).capacity == old(self).capacity,
            final(self).flushed_q@ == old(self).flushed_q@,
    {
        if self.prepared_q.len() < self.capacity {
            self.prepared_q.push(*sqe);
            true
        } else {
            false
        }
    }

    /// Flush every prepared entry to the executor, freeing their slots, and
    /// return how many were flushed.
    pub fn submit(&mut self) -> (n: usize)
        requires
            old(self).wf(),
        ensures
            final(self).wf(),
            n == old(self).prepared_q@.len(),
            final(self).prepared_q@ =~= Seq::<SQE>::empty(),
            final(self).flushed_q@ == old(self).flushed_q@ + old(self).prepared_q@,
            final(self).capacity == old(self).capacity,
    {
        let n = self.prepared_q.len();
        self.flushed_q.append(&mut self.prepared_q);
        n
    }

    /// The executor's side of the handoff: remove and return every flushed
    /// entry, oldest first.
    pub fn take_flushed(&mut self) -> (taken: Vec<SQE>)
        requires
            old(self).wf(),
        ensures
            final(self).wf(),
            taken@ == old(self).flushed_q@,
            final(self).flushed_q@ =~= Seq::<SQE>::empty(),
            final(self).prepared_q@ == old(self).prepared_q@,
            final(self).capacity == old(self).capacity,
    {
        let mut taken: Vec<SQE> = Vec::new();
        taken.append(&mut self.flushed_q);
        taken
    }
}

} // verus!
