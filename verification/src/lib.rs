//! An in-memory model of a submission/completion ring for batched
//! asynchronous file I/O, together with a chunk-pipelined file-copy
//! algorithm that drives the ring under backpressure.
//!
//! The ring exchanges fixed-size operation descriptors ([`sqe::SQE`]) and
//! results ([`cqe::CQE`]) with an executor. The executor itself (the party
//! that performs reads, writes and syncs) lives outside this crate: it
//! drains flushed descriptors from the [`sq::SubmissionQueue`] and delivers
//! results into the [`cq::CompletionQueue`]. Everything on this side of
//! that boundary — descriptor shaping, queue accounting, chunk ownership
//! and the copy pipeline's state machine — is verified.

pub mod chunk;
pub mod cp;
pub mod cq;
pub mod cqe;
pub mod register;
pub mod ring;
pub mod sq;
pub mod sqe;
pub mod utils;

pub use cq::CompletionQueue;
pub use cqe::CQE;
pub use ring::{Ring, RingBuilder};
pub use sq::SubmissionQueue;
pub use sqe::SQE;
