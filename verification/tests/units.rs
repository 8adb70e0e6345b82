//! Direct tests of the descriptor layer, the queues, the registrar and the
//! pipeline's completion handling, error cases and injected faults
//! included.

use ring_io::chunk::{DataChunk, DataChunkState};
use ring_io::cp::{BarrierState, CopyError, CopyPipeline, OpKind, BARRIER_TAG};
use ring_io::cqe::CQE;
use ring_io::register::{Registrar, RegisterError};
use ring_io::ring::MAX_ENTRIES;
use ring_io::sqe::{Opcode, FSYNC_DATASYNC, IO_DRAIN, IO_LINK, SQE};
use ring_io::utils::resultify;
use ring_io::{RingBuilder, SubmissionQueue};

#[test]
fn resultify_maps_codes() {
    assert_eq!(resultify(0), Ok(0));
    assert_eq!(resultify(4096), Ok(4096));
    assert_eq!(resultify(i32::MAX), Ok(i32::MAX as u32));
    assert_eq!(resultify(-2), Err(2));
    assert_eq!(resultify(-22), Err(22));
}

#[test]
fn cqe_accessors() {
    let c = CQE::new(7, -5, 3);
    assert_eq!(c.user_data(), 7);
    assert_eq!(c.raw_result(), -5);
    assert_eq!(c.raw_flags(), 3);
    assert!(c.is_err());
    assert_eq!(c.io_result(), Err(5));
    let ok = CQE::new(9, 100, 0);
    assert!(!ok.is_err());
    assert_eq!(ok.io_result(), Ok(100));
}

#[test]
fn sqe_preparation() {
    let mut s = SQE::new_uninit();
    assert!(matches!(s.opcode, Opcode::Nop));
    assert_eq!(s.fd, -1);
    s.prep_read(5, 16, 4096, 8192);
    assert!(matches!(s.opcode, Opcode::Read));
    assert_eq!(s.fd, 5);
    assert_eq!(s.buf_offset, 16);
    assert_eq!(s.len, 4096);
    assert_eq!(s.offset, 8192);
    assert_eq!(s.flags, 0);
    assert_eq!(s.user_data, 0);
    s.set_user_data(42);
    assert_eq!(s.user_data, 42);
    s.set_flags(IO_LINK);
    s.enable_flags(IO_DRAIN);
    assert_eq!(s.flags, IO_LINK | IO_DRAIN);
    s.prep_fsync(6, FSYNC_DATASYNC);
    assert!(matches!(s.opcode, Opcode::Fsync));
    assert_eq!(s.fsync_flags, FSYNC_DATASYNC);
    assert_eq!(s.flags, 0);
    s.prep_write(7, 3, 100, 200);
    assert!(matches!(s.opcode, Opcode::Write));
    s.prep_nop();
    assert!(matches!(s.opcode, Opcode::Nop));
}

#[test]
fn builder_accepts_and_rejects_depths() {
    assert!(RingBuilder::new(0).build().is_err());
    assert!(RingBuilder::new(MAX_ENTRIES + 1).build().is_err());
    let err = RingBuilder::new(0).build().err().unwrap();
    assert_eq!(err.entries, 0);
    let ring = RingBuilder::new(32).build().unwrap();
    let (sq, cq, _reg) = ring.split();
    assert_eq!(sq.capacity, 32);
    assert_eq!(cq.capacity, 64);
    assert_eq!(sq.prepared(), 0);
    assert_eq!(cq.ready(), 0);
}

#[test]
fn submission_queue_slots_and_flush() {
    let mut sq = SubmissionQueue::new(2);
    assert_eq!(sq.space_left(), 2);
    let mut s = SQE::new_uninit();
    s.prep_read(3, 0, 10, 0);
    assert!(sq.push_sqe(&s));
    assert!(sq.push_sqe(&s));
    assert!(!sq.push_sqe(&s), "a full queue must refuse the slot");
    assert_eq!(sq.prepared(), 2);
    assert_eq!(sq.space_left(), 0);
    let n = sq.submit();
    assert_eq!(n, 2);
    assert_eq!(sq.prepared(), 0);
    assert_eq!(sq.space_left(), 2);
    let taken = sq.take_flushed();
    assert_eq!(taken.len(), 2);
    assert_eq!(taken[0].len, 10);
    assert_eq!(sq.take_flushed().len(), 0);
}

#[test]
fn completion_queue_peek_and_advance() {
    let ring = RingBuilder::new(2).build().unwrap();
    let (_sq, mut cq, _reg) = ring.split();
    assert!(cq.peek_cqe().is_none());
    assert!(cq.push_cqe(&CQE::new(1, 10, 0)));
    assert!(cq.push_cqe(&CQE::new(2, 20, 0)));
    assert!(cq.push_cqe(&CQE::new(3, 30, 0)));
    assert!(cq.push_cqe(&CQE::new(4, 40, 0)));
    assert!(!cq.push_cqe(&CQE::new(5, 50, 0)), "a full queue must refuse delivery");
    assert_eq!(cq.ready(), 4);
    assert_eq!(cq.peek_cqe().unwrap().user_data(), 1);
    let batch = cq.peek_batch_cqe(3);
    assert_eq!(batch.len(), 3);
    assert_eq!(batch[2].user_data(), 3);
    assert_eq!(cq.ready(), 4, "peeking consumes nothing");
    cq.advance(2);
    assert_eq!(cq.ready(), 2);
    assert_eq!(cq.peek_cqe().unwrap().user_data(), 3);
    cq.advance(2);
    assert_eq!(cq.ready(), 0);
    assert!(!cq.is_eventfd_enabled());
    cq.toggle_eventfd(true);
    assert!(cq.is_eventfd_enabled());
}

#[test]
fn registrar_tracks_registration() {
    let mut reg = Registrar::new();
    assert_eq!(reg.register_buffers(0), Err(RegisterError::EmptySet));
    assert_eq!(reg.register_buffers(4), Ok(()));
    assert_eq!(reg.register_buffers(2), Err(RegisterError::AlreadyRegistered));
    assert_eq!(reg.unregister_buffers(), Ok(()));
    assert_eq!(reg.unregister_buffers(), Err(RegisterError::NotRegistered));
    let files = vec![3, 4];
    assert_eq!(reg.register_files(&files), Ok(()));
    assert_eq!(reg.register_files(&files), Err(RegisterError::AlreadyRegistered));
    assert_eq!(reg.unregister_files(), Ok(()));
    assert_eq!(reg.unregister_files(), Err(RegisterError::NotRegistered));
    let none: Vec<i32> = Vec::new();
    assert_eq!(reg.register_files(&none), Err(RegisterError::EmptySet));
}

#[test]
fn data_chunk_windowing() {
    let mut c = DataChunk::allocate(100, 64);
    assert!(matches!(c.state(), DataChunkState::IDLE));
    assert_eq!(c.file_offset(), 100);
    assert_eq!(c.data_len(), 0);
    c.set_full_filled();
    assert_eq!(c.data_start(), 0);
    assert_eq!(c.data_len(), 64);
    c.set_data_range(8, 40);
    assert_eq!(c.data_start(), 8);
    assert_eq!(c.data_len(), 32);
    c.consume_data(12);
    assert_eq!(c.data_start(), 20);
    assert_eq!(c.data_len(), 20);
    c.set_file_offset(112);
    assert_eq!(c.file_offset(), 112);
    c.set_state(DataChunkState::WRITING);
    assert!(matches!(c.state(), DataChunkState::WRITING));
}

/// Drive one chunk through read and (short) write completions by hand.
fn one_chunk_pipeline() -> (CopyPipeline, SubmissionQueue) {
    let mut p = CopyPipeline::new(3, 4, 10, 10, 2);
    let mut sq = SubmissionQueue::new(8);
    assert!(p.try_issue_read(&mut sq));
    (p, sq)
}

#[test]
fn short_write_requeues_with_advanced_offset() {
    let (mut p, mut sq) = one_chunk_pipeline();
    assert!(p.apply_cqe(&CQE::new(0, 10, 0)).is_ok());
    assert!(p.try_issue_write(&mut sq));
    // the write completes short: 4 of 10 bytes
    assert!(p.apply_cqe(&CQE::new(0, 4, 0)).is_ok());
    assert_eq!(p.bytes_written(), 4);
    assert_eq!(p.chunks[0].file_offset, 4);
    assert_eq!(p.chunks[0].data_start, 4);
    assert_eq!(p.chunks[0].data_len, 6);
    assert!(matches!(p.chunks[0].state, DataChunkState::IDLE));
    assert_eq!(p.write_ready.len(), 1, "the remainder must be re-queued");
    // the re-issued write carries the advanced window and offset
    assert!(p.try_issue_write(&mut sq));
    sq.submit();
    let taken = sq.take_flushed();
    let requeued = taken.last().unwrap();
    assert!(matches!(requeued.opcode, Opcode::Write));
    assert_eq!(requeued.offset, 4);
    assert_eq!(requeued.buf_offset, 4);
    assert_eq!(requeued.len, 6);
    // it completes fully: the chunk is recycled
    assert!(p.apply_cqe(&CQE::new(0, 6, 0)).is_ok());
    assert_eq!(p.bytes_written(), 10);
    assert_eq!(p.recycled.len(), 1);
    assert!(p.done_streaming());
}

#[test]
fn completion_for_idle_chunk_is_invariant_violation() {
    let (mut p, _sq) = one_chunk_pipeline();
    assert!(p.apply_cqe(&CQE::new(0, 10, 0)).is_ok());
    // the same completion again finds the chunk idle: injected fault
    let r = p.apply_cqe(&CQE::new(0, 10, 0));
    assert_eq!(r, Err(CopyError::InvariantViolation { tag: 0 }));
}

#[test]
fn completion_for_unknown_tag_is_invariant_violation() {
    let (mut p, _sq) = one_chunk_pipeline();
    let r = p.apply_cqe(&CQE::new(17, 10, 0));
    assert_eq!(r, Err(CopyError::InvariantViolation { tag: 17 }));
}

#[test]
fn negative_results_are_fatal_io_errors() {
    let (mut p, mut sq) = one_chunk_pipeline();
    let r = p.apply_cqe(&CQE::new(0, -5, 0));
    assert_eq!(r, Err(CopyError::IoOperationError { op: OpKind::Read, tag: 0, code: -5 }));
    // errors leave the pipeline untouched; a clean completion still applies
    assert!(p.apply_cqe(&CQE::new(0, 10, 0)).is_ok());
    assert!(p.try_issue_write(&mut sq));
    let r = p.apply_cqe(&CQE::new(0, -28, 0));
    assert_eq!(r, Err(CopyError::IoOperationError { op: OpKind::Write, tag: 0, code: -28 }));
}

#[test]
fn short_read_is_unexpected_end_of_file() {
    let (mut p, _sq) = one_chunk_pipeline();
    let r = p.apply_cqe(&CQE::new(0, 7, 0));
    assert_eq!(
        r,
        Err(CopyError::UnexpectedEndOfFile {
            tag: 0,
            file_offset: 0,
            requested: 10,
            transferred: 7,
        })
    );
    let r = p.apply_cqe(&CQE::new(0, 0, 0));
    assert_eq!(
        r,
        Err(CopyError::UnexpectedEndOfFile {
            tag: 0,
            file_offset: 0,
            requested: 10,
            transferred: 0,
        })
    );
}

#[test]
fn overlong_results_are_invariant_violations() {
    let (mut p, mut sq) = one_chunk_pipeline();
    let r = p.apply_cqe(&CQE::new(0, 11, 0));
    assert_eq!(r, Err(CopyError::InvariantViolation { tag: 0 }));
    assert!(p.apply_cqe(&CQE::new(0, 10, 0)).is_ok());
    assert!(p.try_issue_write(&mut sq));
    let r = p.apply_cqe(&CQE::new(0, 11, 0));
    assert_eq!(r, Err(CopyError::InvariantViolation { tag: 0 }));
}

#[test]
fn barrier_lifecycle_and_faults() {
    let mut p = CopyPipeline::new(3, 4, 0, 10, 2);
    let mut sq = SubmissionQueue::new(8);
    // a barrier completion with no barrier in flight is a fault
    let r = p.apply_cqe(&CQE::new(BARRIER_TAG, 0, 0));
    assert_eq!(r, Err(CopyError::InvariantViolation { tag: BARRIER_TAG }));
    assert!(p.done_streaming(), "an empty source has nothing to stream");
    assert!(p.try_issue_barrier(&mut sq));
    assert!(matches!(p.barrier_state(), BarrierState::InFlight));
    sq.submit();
    let taken = sq.take_flushed();
    assert_eq!(taken.len(), 1);
    assert!(matches!(taken[0].opcode, Opcode::Fsync));
    assert_eq!(taken[0].fd, 4);
    assert_ne!(taken[0].flags & IO_DRAIN, 0, "the barrier must carry the drain flag");
    assert_eq!(taken[0].user_data, BARRIER_TAG);
    // a failed sync is a fatal error and leaves the barrier in flight
    let r = p.apply_cqe(&CQE::new(BARRIER_TAG, -5, 0));
    assert_eq!(r, Err(CopyError::IoOperationError { op: OpKind::Fsync, tag: BARRIER_TAG, code: -5 }));
    assert!(p.apply_cqe(&CQE::new(BARRIER_TAG, 0, 0)).is_ok());
    assert!(p.finished());
    assert_eq!(p.submitted(), p.completed());
}

#[test]
fn reads_reuse_recycled_chunks() {
    let mut p = CopyPipeline::new(3, 4, 30, 10, 1);
    let mut sq = SubmissionQueue::new(8);
    p.issue_reads(&mut sq);
    // one chunk allowed: a single read goes out
    assert_eq!(p.resident_chunks(), 1);
    assert_eq!(p.read_offset(), 10);
    assert!(p.apply_cqe(&CQE::new(0, 10, 0)).is_ok());
    assert!(p.try_issue_write(&mut sq));
    assert!(p.apply_cqe(&CQE::new(0, 10, 0)).is_ok());
    // the chunk was recycled; the next read reuses it instead of allocating
    assert_eq!(p.recycled.len(), 1);
    assert!(p.try_issue_read(&mut sq));
    assert_eq!(p.resident_chunks(), 1);
    assert_eq!(p.read_offset(), 20);
    sq.submit();
    let taken = sq.take_flushed();
    let reread = taken.last().unwrap();
    assert_eq!(reread.offset, 10, "the reused chunk reads at the next offset");
    assert_eq!(reread.user_data, 0);
}
