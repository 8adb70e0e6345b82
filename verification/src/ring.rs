//! The ring itself: one owner for a submission queue, a completion queue
//! and a registrar, created together with a common capacity.
//!
//! The completion queue is made twice as deep as the submission queue, so
//! that a full flush can complete even while earlier results are still
//! unconsumed. Destruction is ordinary ownership: dropping the ring drops
//! the queues, and it is the caller's obligation not to do so while the
//! executor still holds flushed operations — a completion delivered to a
//! dropped ring is simply lost.

use crate::cq::CompletionQueue;
use crate::register::Registrar;
use crate::sq::SubmissionQueue;
use vstd::prelude::*;

verus! {

/// The largest submission queue depth a ring can be created with.
pub const MAX_ENTRIES: u32 = 32768;

/// The ring could not be set up with the requested queue depth.
#[derive(Clone, Copy, PartialEq, Eq, Structural, Debug)]
pub struct InitializationError {
    /// The depth that was requested.
    pub entries: u32,
}

/// Configuration for a new [`Ring`].
pub struct RingBuilder {
    /// The requested submission queue depth.
    pub entries: u32,
}

impl RingBuilder {
    /// Ask for a ring whose submission queue holds `entries` slots.
    pub fn new(entries: u32) -> (r: RingBuilder)
        ensures
            r.entries == entries,
    {
        RingBuilder { entries }
    }

    /// Build the ring. Fails if and only if the requested depth is zero or
    /// above [`MAX_ENTRIES`].
    pub fn build(self) -> (r: Result<Ring, InitializationError>)
        ensures
            (1 <= self.entries <= MAX_ENTRIES) <==> r is Ok,
            r matches Ok(ring) ==> {
                &&& ring.sq.wf()
                &&& ring.cq.wf()
                &&& ring.sq.capacity == self.entries
                &&& ring.cq.capacity == 2 * self.entries
                &&& ring.sq.prepared_q@.len() == 0
                &&& ring.sq.flushed_q@.len() == 0
                &&& ring.cq.ready_q@.len() == 0
                &&& ring.registrar.buffers is None
                &&& ring.registrar.files is None
            },
            r matches Err(e) ==> e.entries == self.entries,
    {
        if self.entries == 0 || self.entries > MAX_ENTRIES {
            Err(InitializationError { entries: self.entries })
        } else {
            let sq_capacity = self.entries as usize;
            let cq_capacity = (2 * self.entries) as usize;
            Ok(
                Ring {
                    sq: SubmissionQueue::new(sq_capacity),
                    cq: CompletionQueue::new(cq_capacity),
                    registrar: Registrar::new(),
                },
            )
        }
    }
}

/// A ring: the owner of both queue halves and the registrar.
pub struct Ring {
    /// The producer side.
    pub sq: SubmissionQueue,
    /// The consumer side.
    pub cq: CompletionQueue,
    /// The registration hook.
    pub registrar: Registrar,
}

impl Ring {
    /// Borrow the submission half.
    pub fn sq(&mut self) -> (r: &mut SubmissionQueue)
        ensures
            *r == old(self).sq,
            final(self).sq == *final(r),
            final(self).cq == old(self).cq,
            final(self).registrar == old(self).registrar,
    {
        &mut self.sq
    }

    /// Borrow the completion half.
    pub fn cq(&mut self) -> (r: &mut CompletionQueue)
        ensures
            *r == old(self).cq,
            final(self).cq == *final(r),
            final(self).sq == old(self).sq,
            final(self).registrar == old(self).registrar,
    {
        &mut self.cq
    }

    /// Borrow the registration hook.
    pub fn registrar(&mut self) -> (r: &mut Registrar)
        ensures
            *r == old(self).registrar,
            final(self).registrar == *final(r),
            final(self).sq == old(self).sq,
            final(self).cq == old(self).cq,
    {
        &mut self.registrar
    }

    /// Split the ring into its three parts. Each part is single-writer for
    /// its own state, so a driver may hand them to different roles.
    pub fn split(self) -> (r: (SubmissionQueue, CompletionQueue, Registrar))
        ensures
            r.0 == self.sq,
            r.1 == self.cq,
            r.2 == self.registrar,
    {
        let Ring { sq, cq, registrar } = self;
        (sq, cq, registrar)
    }
}

} // verus!
