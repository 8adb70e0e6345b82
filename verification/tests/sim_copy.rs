//! End-to-end copy runs against a simulated executor.
//!
//! The simulator plays the kernel's role: it takes flushed submission
//! entries, performs them against in-memory source/destination images, and
//! delivers completions — out of submission order on purpose (newest
//! first), except that an entry carrying the drain flag waits until it is
//! the only one pending. A policy hook makes every first write attempt per
//! chunk short, to exercise re-queueing.

use ring_io::cp::{BarrierState, CopyError, CopyPipeline, BARRIER_TAG};
use ring_io::cqe::CQE;
use ring_io::sqe::{Opcode, IO_DRAIN, SQE};
use ring_io::{CompletionQueue, RingBuilder, SubmissionQueue};

const SRC_FD: i32 = 3;
const DST_FD: i32 = 4;

struct SimExec {
    source: Vec<u8>,
    dest: Vec<u8>,
    bufs: Vec<Vec<u8>>,
    pending: Vec<SQE>,
    short_writes: bool,
    wrote_short: Vec<bool>,
}

impl SimExec {
    fn new(source: &[u8], short_writes: bool) -> SimExec {
        SimExec {
            source: source.to_vec(),
            dest: Vec::new(),
            bufs: Vec::new(),
            pending: Vec::new(),
            short_writes,
            wrote_short: Vec::new(),
        }
    }

    fn accept(&mut self, sqes: Vec<SQE>) {
        for sqe in sqes {
            self.pending.push(sqe);
        }
    }

    fn ensure_tag(&mut self, tag: usize) {
        while self.bufs.len() <= tag {
            self.bufs.push(Vec::new());
            self.wrote_short.push(false);
        }
    }

    fn perform(&mut self, sqe: &SQE) -> CQE {
        match sqe.opcode {
            Opcode::Read => {
                let tag = sqe.user_data as usize;
                self.ensure_tag(tag);
                let off = sqe.offset as usize;
                let want = sqe.len as usize;
                let avail = if off < self.source.len() { self.source.len() - off } else { 0 };
                let n = want.min(avail);
                self.bufs[tag] = self.source[off..off + n].to_vec();
                CQE::new(sqe.user_data, n as i32, 0)
            }
            Opcode::Write => {
                let tag = sqe.user_data as usize;
                self.ensure_tag(tag);
                let fo = sqe.offset as usize;
                let s = sqe.buf_offset;
                let want = sqe.len as usize;
                let n = if self.short_writes && !self.wrote_short[tag] && want >= 2 {
                    self.wrote_short[tag] = true;
                    want / 2
                } else {
                    want
                };
                if self.dest.len() < fo + n {
                    self.dest.resize(fo + n, 0);
                }
                self.dest[fo..fo + n].copy_from_slice(&self.bufs[tag][s..s + n]);
                CQE::new(sqe.user_data, n as i32, 0)
            }
            Opcode::Fsync => CQE::new(sqe.user_data, 0, 0),
            Opcode::Nop => CQE::new(sqe.user_data, 0, 0),
        }
    }

    /// Deliver completions newest-first; a drain entry only once it is the
    /// sole pending one. Stops when the completion queue is full.
    fn deliver(&mut self, cq: &mut CompletionQueue) {
        loop {
            if self.pending.is_empty() {
                return;
            }
            let pick = {
                let mut found = None;
                for i in (0..self.pending.len()).rev() {
                    if self.pending[i].flags & IO_DRAIN == 0 {
                        found = Some(i);
                        break;
                    }
                }
                match found {
                    Some(i) => i,
                    None => {
                        if self.pending.len() == 1 {
                            0
                        } else {
                            return;
                        }
                    }
                }
            };
            let sqe = self.pending[pick];
            let cqe = self.perform(&sqe);
            if !cq.push_cqe(&cqe) {
                return;
            }
            self.pending.remove(pick);
        }
    }
}

struct RunOutcome {
    dest: Vec<u8>,
    applied: Vec<CQE>,
    read_lens: Vec<u32>,
    write_sum: u64,
    write_count: usize,
    max_resident: usize,
    deferred_issuance: bool,
}

fn run_copy(
    source: &[u8],
    chunk_size: usize,
    max_chunks: usize,
    entries: u32,
    short_writes: bool,
) -> Result<RunOutcome, CopyError> {
    let ring = RingBuilder::new(entries).build().expect("ring setup");
    let (mut sq, mut cq, _registrar) = ring.split();
    let mut p = CopyPipeline::new(SRC_FD, DST_FD, source.len() as u64, chunk_size, max_chunks);
    let mut sim = SimExec::new(source, short_writes);
    let mut applied: Vec<CQE> = Vec::new();
    let mut read_lens: Vec<u32> = Vec::new();
    let mut write_sum: u64 = 0;
    let mut write_count: usize = 0;
    let mut max_resident: usize = 0;
    let mut deferred = false;
    let mut rounds = 0usize;
    while !p.finished() {
        rounds += 1;
        assert!(rounds < 1_000_000, "the copy made no progress");
        if !p.done_streaming() {
            p.issue_reads(&mut sq);
            p.issue_writes(&mut sq);
            if p.read_offset() < source.len() as u64 && sq.space_left() == 0 {
                deferred = true;
            }
        } else if matches!(p.barrier_state(), BarrierState::NotIssued) {
            let issued = p.try_issue_barrier(&mut sq);
            assert!(issued, "a drained ring must have a free slot for the barrier");
        }
        let flushed = sq.submit();
        let taken = sq.take_flushed();
        assert_eq!(taken.len(), flushed);
        for sqe in &taken {
            if matches!(sqe.opcode, Opcode::Read) {
                read_lens.push(sqe.len);
            }
        }
        sim.accept(taken);
        sim.deliver(&mut cq);
        let n = cq.ready();
        let batch = cq.peek_batch_cqe(n);
        for cqe in &batch {
            if cqe.user_data() != BARRIER_TAG {
                let was_writing = matches!(
                    p.chunks[cqe.user_data() as usize].state,
                    ring_io::chunk::DataChunkState::WRITING
                );
                if was_writing && cqe.raw_result() >= 0 {
                    write_sum += cqe.raw_result() as u64;
                    write_count += 1;
                }
            }
            applied.push(*cqe);
            p.apply_cqe(cqe)?;
            assert!(p.resident_chunks() <= max_chunks, "residency bound broken");
            if p.resident_chunks() > max_resident {
                max_resident = p.resident_chunks();
            }
        }
        cq.advance(n);
    }
    assert_eq!(sq.prepared(), 0);
    assert_eq!(sq.space_left(), entries as usize);
    assert_eq!(cq.ready(), 0);
    assert_eq!(p.submitted(), p.completed());
    assert_eq!(p.bytes_written(), source.len() as u64);
    assert_eq!(applied.len() as u64, p.submitted());
    Ok(RunOutcome {
        dest: sim.dest,
        applied,
        read_lens,
        write_sum,
        write_count,
        max_resident,
        deferred_issuance: deferred,
    })
}

fn pattern(len: usize) -> Vec<u8> {
    let mut v = Vec::with_capacity(len);
    for i in 0..len {
        v.push((i % 251) as u8);
    }
    v
}

#[test]
fn round_trip_sizes() {
    let chunk = 1024usize;
    for &size in &[0usize, 1, chunk - 1, chunk, chunk + 1, 3 * chunk, 3 * chunk + 357] {
        let src = pattern(size);
        let out = run_copy(&src, chunk, 4, 8, false).expect("copy failed");
        assert_eq!(out.dest, src, "round trip broken at size {}", size);
    }
}

#[test]
fn round_trip_with_short_writes() {
    let chunk = 1024usize;
    for &size in &[1usize, chunk, 3 * chunk + 357] {
        let src = pattern(size);
        let out = run_copy(&src, chunk, 4, 8, true).expect("copy failed");
        assert_eq!(out.dest, src, "round trip broken at size {}", size);
        assert_eq!(out.write_sum, size as u64);
    }
}

#[test]
fn bounded_residency() {
    let src = pattern(64 * 1024);
    let out = run_copy(&src, 1024, 3, 16, false).expect("copy failed");
    assert!(out.max_resident <= 3);
    assert_eq!(out.dest, src);
}

#[test]
fn exactly_once_accounting() {
    let src = pattern(10_000);
    let out = run_copy(&src, 1024, 4, 8, false).expect("copy failed");
    // one completion per submitted descriptor, each applied exactly once
    let mut tags: Vec<u64> = out.applied.iter().map(|c| c.user_data()).collect();
    tags.sort_unstable();
    // every chunk completion pairs a read or write; the barrier appears once
    assert_eq!(tags.iter().filter(|&&t| t == BARRIER_TAG).count(), 1);
}

#[test]
fn backpressure_defers_and_recovers() {
    // A two-slot ring cannot hold all the issuance a 16-chunk copy wants:
    // the pipeline must defer, then resume after completions drain.
    let src = pattern(16 * 512);
    let out = run_copy(&src, 512, 8, 2, false).expect("copy failed");
    assert!(out.deferred_issuance, "a two-slot ring should have exhausted its slots");
    assert_eq!(out.dest, src);
}

#[test]
fn barrier_completes_last() {
    let src = pattern(100_000);
    let out = run_copy(&src, 32 * 1024, 4, 8, false).expect("copy failed");
    let last = out.applied.last().expect("a run applies at least the barrier");
    assert_eq!(last.user_data(), BARRIER_TAG);
    for cqe in &out.applied[..out.applied.len() - 1] {
        assert_ne!(cqe.user_data(), BARRIER_TAG);
    }
}

#[test]
fn concrete_scenario() {
    // source 100,000 bytes, 32 KiB chunks, 4 chunks, an 8-slot ring
    let src = pattern(100_000);
    let out = run_copy(&src, 32_768, 4, 8, false).expect("copy failed");
    assert_eq!(out.read_lens, vec![32_768, 32_768, 32_768, 1_696]);
    assert!(out.write_count >= 4);
    assert_eq!(out.write_sum, 100_000);
    assert_eq!(out.dest, src);
    assert_eq!(out.applied.last().unwrap().user_data(), BARRIER_TAG);
}

#[test]
fn concrete_scenario_with_short_writes() {
    let src = pattern(100_000);
    let out = run_copy(&src, 32_768, 4, 8, true).expect("copy failed");
    assert!(out.write_count > 4);
    assert_eq!(out.write_sum, 100_000);
    assert_eq!(out.dest, src);
}
