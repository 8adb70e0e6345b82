//! The chunk pipeline: a verified file-copy state machine over the ring.
//!
//! The pipeline owns an arena of [`DataChunk`]s, indexed by small integers
//! that double as correlation tags. It decides what to submit — overlapped
//! reads and writes, then one durability barrier — and how to interpret
//! each completion; a driver performs the flush/wait/peek/advance cycle
//! around it and an executor performs the I/O. Everything the pipeline
//! promises holds whatever results the executor hands back.
//!
//! Ownership of a chunk's buffer crosses the asynchronous boundary through
//! the tag alone: marking a chunk `READING` or `WRITING` lends the buffer
//! out, and the only way back to `IDLE` is applying the one completion that
//! carries the same tag. The well-formedness invariant [`CopyPipeline::wf`]
//! keeps the books balanced: every idle chunk sits in exactly one of the
//! recycle and write-ready lists, the number of lent chunks always equals
//! the submission/completion counter difference, and every byte whose read
//! was issued is either still in some chunk's window or already counted as
//! written.

use crate::chunk::{DataChunk, DataChunkState};
use crate::cqe::CQE;
use crate::sq::SubmissionQueue;
use crate::sqe::{Opcode, IO_DRAIN, SQE};
use vstd::prelude::*;

verus! {

/// The correlation tag reserved for the durability barrier; chunk tags are
/// arena indices and stay far below it.
pub const BARRIER_TAG: u64 = 0xffff_ffff_ffff_ffff;

/// Which operation a fatal result belongs to.
#[derive(Clone, Copy, PartialEq, Eq, Structural, Debug)]
pub enum OpKind {
    Read,
    Write,
    Fsync,
}

/// Why a copy was aborted.
#[derive(Clone, Copy, PartialEq, Eq, Structural, Debug)]
pub enum CopyError {
    /// A completed operation reported a negative result: `code` is the raw
    /// result, `-code` the OS error number.
    IoOperationError { op: OpKind, tag: u64, code: i32 },
    /// A read moved fewer bytes than the known remaining size asked for:
    /// the source changed under the copy or the size probe lied.
    UnexpectedEndOfFile { tag: u64, file_offset: u64, requested: usize, transferred: u32 },
    /// A completion that no in-flight operation can explain: an unknown
    /// tag, an idle chunk, a result larger than the lent window, or a
    /// barrier completion with no barrier in flight.
    InvariantViolation { tag: u64 },
}

/// Where the final durability barrier stands.
#[derive(Clone, Copy, PartialEq, Eq, Structural, Debug)]
pub enum BarrierState {
    /// The copy is still streaming.
    NotIssued,
    /// The barrier was submitted and its completion is pending.
    InFlight,
    /// The barrier completed successfully: the copy is finished.
    Done,
}

/// Total bytes currently held in chunk windows: lent-out read targets,
/// unwritten data waiting or in flight.
pub open spec fn sum_window(s: Seq<DataChunk>) -> nat
    decreases s.len(),
{
    if s.len() == 0 {
        0
    } else {
        sum_window(s.drop_last()) + s.last().data_len as nat
    }
}

/// How many chunks are lent to the executor.
pub open spec fn count_inflight(s: Seq<DataChunk>) -> nat
    decreases s.len(),
{
    if s.len() == 0 {
        0
    } else {
        count_inflight(s.drop_last()) + (if s.last().state is IDLE {
            0nat
        } else {
            1nat
        })
    }
}

proof fn lemma_fold_push(s: Seq<DataChunk>, c: DataChunk)
    ensures
        sum_window(s.push(c)) == sum_window(s) + c.data_len,
        count_inflight(s.push(c)) == count_inflight(s) + (if c.state is IDLE {
            0nat
        } else {
            1nat
        }),
{
    assert(s.push(c).drop_last() =~= s);
    assert(s.push(c).last() == c);
}

proof fn lemma_fold_update(s: Seq<DataChunk>, i: int, c: DataChunk)
    requires
        0 <= i < s.len(),
    ensures
        sum_window(s.update(i, c)) == sum_window(s) - s[i].data_len + c.data_len,
        count_inflight(s.update(i, c)) == count_inflight(s) - (if s[i].state is IDLE {
            0nat
        } else {
            1nat
        }) + (if c.state is IDLE {
            0nat
        } else {
            1nat
        }),
    decreases s.len(),
{
    if i == s.len() - 1 {
        assert(s.update(i, c).drop_last() =~= s.drop_last());
        assert(s.update(i, c).last() == c);
    } else {
        assert(s.update(i, c).drop_last() =~= s.drop_last().update(i, c));
        assert(s.update(i, c).last() == s.last());
        lemma_fold_update(s.drop_last(), i, c);
    }
}

proof fn lemma_window_lower_bound(s: Seq<DataChunk>, i: int)
    requires
        0 <= i < s.len(),
    ensures
        sum_window(s) >= s[i].data_len,
    decreases s.len(),
{
    if i == s.len() - 1 {
        assert(s.last() == s[i]);
    } else {
        assert(s.drop_last()[i] == s[i]);
        lemma_window_lower_bound(s.drop_last(), i);
    }
}

proof fn lemma_inflight_lower_bound(s: Seq<DataChunk>, i: int)
    requires
        0 <= i < s.len(),
        !(s[i].state is IDLE),
    ensures
        count_inflight(s) >= 1,
    decreases s.len(),
{
    if i < s.len() - 1 {
        assert(s.drop_last()[i] == s[i]);
        lemma_inflight_lower_bound(s.drop_last(), i);
    }
}

proof fn lemma_empty_windows(s: Seq<DataChunk>)
    requires
        sum_window(s) == 0,
    ensures
        forall|i: int| 0 <= i < s.len() ==> (#[trigger] s[i]).data_len == 0,
    decreases s.len(),
{
    if s.len() > 0 {
        lemma_empty_windows(s.drop_last());
        assert forall|i: int| 0 <= i < s.len() implies (#[trigger] s[i]).data_len == 0 by {
            if i < s.len() - 1 {
                assert(s.drop_last()[i] == s[i]);
            } else {
                assert(s.last() == s[i]);
            }
        }
    }
}

proof fn lemma_all_idle_no_inflight(s: Seq<DataChunk>)
    requires
        forall|i: int| 0 <= i < s.len() ==> (#[trigger] s[i]).state is IDLE,
    ensures
        count_inflight(s) == 0,
    decreases s.len(),
{
    if s.len() > 0 {
        assert forall|i: int| 0 <= i < s.drop_last().len() implies (#[trigger] s.drop_last()[i]).state
            is IDLE by {
            assert(s.drop_last()[i] == s[i]);
        }
        lemma_all_idle_no_inflight(s.drop_last());
        assert(s.last() == s[s.len() - 1]);
    }
}

/// The copy pipeline's whole state.
pub struct CopyPipeline {
    /// Handle of the file being read.
    pub src_fd: i32,
    /// Handle of the file being written.
    pub dst_fd: i32,
    /// Exact size of the source in bytes, known before the copy begins.
    pub cp_size: u64,
    /// The capacity a freshly allocated chunk aims for.
    pub chunk_size: usize,
    /// The most chunks that may ever be resident at once.
    pub max_chunks: usize,
    /// The next source offset a read will be issued at.
    pub read_offset: u64,
    /// Bytes acknowledged by write completions so far.
    pub bytes_written: u64,
    /// Operations stamped and handed to the submission queue.
    pub submitted: u64,
    /// Completions applied.
    pub completed: u64,
    /// The chunk arena; a chunk's index is its correlation tag.
    pub chunks: Vec<DataChunk>,
    /// Indices of idle chunks with empty windows, ready for the next read.
    pub recycled: Vec<usize>,
    /// Indices of idle chunks holding unwritten data, oldest first.
    pub write_ready: Vec<usize>,
    /// Where the final durability barrier stands.
    pub barrier: BarrierState,
    /// Ghost bookkeeping, one entry per arena slot: the source offset of
    /// the last read issued for that chunk. It anchors the correspondence
    /// between buffer positions and file positions (see
    /// [`lemma_write_matches_read_origin`]).
    pub read_origin: Ghost<Seq<u64>>,
}

/// A chunk's window stays anchored to where its buffer was filled from:
/// buffer byte `p` stands for source byte `origin + p`, so the window's
/// file position is always `origin` plus the window's start. Vacuous for a
/// drained chunk, whose buffer holds nothing of interest.
pub open spec fn window_anchored(c: DataChunk, origin: u64) -> bool {
    !(c.state is IDLE && c.data_len == 0) ==> c.file_offset == origin + c.data_start
}

impl CopyPipeline {
    /// What must hold of every resident chunk.
    pub open spec fn chunk_ok(self, c: DataChunk) -> bool {
        &&& c.inv()
        &&& 1 <= c.chunk_size <= self.chunk_size
        &&& c.file_offset + c.data_len <= self.cp_size
        &&& (!(c.state is IDLE) ==> c.data_len >= 1)
    }

    /// What membership in the recycle list means.
    pub open spec fn recycled_entry_ok(self, i: usize) -> bool {
        &&& i < self.chunks@.len()
        &&& self.chunks@[i as int].state is IDLE
        &&& self.chunks@[i as int].data_len == 0
    }

    /// What membership in the write-ready list means.
    pub open spec fn ready_entry_ok(self, i: usize) -> bool {
        &&& i < self.chunks@.len()
        &&& self.chunks@[i as int].state is IDLE
        &&& self.chunks@[i as int].data_len >= 1
    }

    /// The pipeline's well-formedness invariant. Established by [`Self::new`]
    /// and preserved by every operation.
    pub open spec fn wf(self) -> bool {
        &&& 1 <= self.chunk_size <= u32::MAX
        &&& 1 <= self.max_chunks
        &&& self.chunks@.len() <= self.max_chunks
        &&& forall|i: int|
            0 <= i < self.chunks@.len() ==> self.chunk_ok(#[trigger] self.chunks@[i])
        &&& forall|k: int|
            0 <= k < self.recycled@.len() ==> self.recycled_entry_ok(#[trigger] self.recycled@[k])
        &&& forall|k1: int, k2: int|
            0 <= k1 < self.recycled@.len() && 0 <= k2 < self.recycled@.len() && k1 != k2
                ==> #[trigger] self.recycled@[k1] != #[trigger] self.recycled@[k2]
        &&& forall|k: int|
            0 <= k < self.write_ready@.len() ==> self.ready_entry_ok(
                #[trigger] self.write_ready@[k],
            )
        &&& forall|k1: int, k2: int|
            0 <= k1 < self.write_ready@.len() && 0 <= k2 < self.write_ready@.len() && k1 != k2
                ==> #[trigger] self.write_ready@[k1] != #[trigger] self.write_ready@[k2]
        &&& forall|i: int|
            0 <= i < self.chunks@.len() && (#[trigger] self.chunks@[i]).state is IDLE
                ==> self.recycled@.contains(i as usize) || self.write_ready@.contains(i as usize)
        &&& self.completed <= self.submitted
        &&& self.submitted - self.completed == count_inflight(self.chunks@) + (
        if self.barrier is InFlight {
            1int
        } else {
            0int
        })
        &&& self.read_offset <= self.cp_size
        &&& self.read_offset == self.bytes_written + sum_window(self.chunks@)
        &&& (!(self.barrier is NotIssued) ==> self.bytes_written == self.cp_size)
        &&& self.read_origin@.len() == self.chunks@.len()
        &&& forall|i: int|
            0 <= i < self.chunks@.len() ==> window_anchored(
                #[trigger] self.chunks@[i],
                self.read_origin@[i],
            )
    }

    /// The configuration fields never change after construction.
    pub open spec fn same_config(self, other: CopyPipeline) -> bool {
        &&& self.src_fd == other.src_fd
        &&& self.dst_fd == other.dst_fd
        &&& self.cp_size == other.cp_size
        &&& self.chunk_size == other.chunk_size
        &&& self.max_chunks == other.max_chunks
    }

    /// A pipeline about to copy `cp_size` bytes from `src_fd` to `dst_fd`,
    /// with chunks of at most `chunk_size` bytes and at most `max_chunks`
    /// of them resident at once.
    pub fn new(src_fd: i32, dst_fd: i32, cp_size: u64, chunk_size: usize, max_chunks: usize) -> (p:
        CopyPipeline)
        requires
            1 <= chunk_size <= u32::MAX,
            1 <= max_chunks,
        ensures
            p.wf(),
            p.src_fd == src_fd,
            p.dst_fd == dst_fd,
            p.cp_size == cp_size,
            p.chunk_size == chunk_size,
            p.max_chunks == max_chunks,
            p.read_offset == 0,
            p.bytes_written == 0,
            p.submitted == 0,
            p.completed == 0,
            p.chunks@.len() == 0,
            p.recycled@.len() == 0,
            p.write_ready@.len() == 0,
            p.barrier is NotIssued,
    {
        CopyPipeline {
            src_fd,
            dst_fd,
            cp_size,
            chunk_size,
            max_chunks,
            read_offset: 0,
            bytes_written: 0,
            submitted: 0,
            completed: 0,
            chunks: Vec::new(),
            recycled: Vec::new(),
            write_ready: Vec::new(),
            barrier: BarrierState::NotIssued,
            read_origin: Ghost(Seq::empty()),
        }
    }

    /// Whether another read can be issued right now: source bytes remain
    /// and a chunk is available (recycled, or below the residency bound).
    pub open spec fn can_issue_read(self) -> bool {
        &&& self.read_offset < self.cp_size
        &&& (self.recycled@.len() > 0 || self.chunks@.len() < self.max_chunks)
    }

    /// The tag the next read will use: the most recently recycled chunk,
    /// or a fresh arena slot.
    pub open spec fn read_issue_tag(self) -> usize {
        if self.recycled@.len() > 0 {
            self.recycled@.last()
        } else {
            self.chunks@.len() as usize
        }
    }

    /// How many bytes the next read will ask for: the chunk's capacity,
    /// clipped to the bytes that remain unread.
    pub open spec fn read_issue_len(self) -> u64 {
        let cap = if self.recycled@.len() > 0 {
            self.chunks@[self.read_issue_tag() as int].chunk_size as u64
        } else {
            self.chunk_size as u64
        };
        if cap < self.cp_size - self.read_offset {
            cap
        } else {
            (self.cp_size - self.read_offset) as u64
        }
    }

    /// The chunk as the next read submission lends it out.
    pub open spec fn read_issue_chunk(self) -> DataChunk {
        DataChunk {
            file_offset: self.read_offset,
            chunk_size: if self.recycled@.len() > 0 {
                self.chunks@[self.read_issue_tag() as int].chunk_size
            } else {
                self.read_issue_len() as usize
            },
            data_start: 0,
            data_len: self.read_issue_len() as usize,
            state: DataChunkState::READING,
        }
    }

    /// The descriptor the next read submission pushes.
    pub open spec fn read_issue_sqe(self) -> SQE {
        SQE {
            opcode: Opcode::Read,
            flags: 0,
            fd: self.src_fd,
            offset: self.read_offset,
            buf_offset: 0,
            len: self.read_issue_len() as u32,
            fsync_flags: 0,
            user_data: self.read_issue_tag() as u64,
        }
    }

    /// Issue one read if source bytes remain, a chunk is available and a
    /// submission slot is free; otherwise change nothing. Never fails:
    /// running out of chunks or slots only defers issuance.
    pub fn try_issue_read(&mut self, sq: &mut SubmissionQueue) -> (issued: bool)
        requires
            old(self).wf(),
            old(sq).wf(),
            old(self).barrier is NotIssued,
            old(self).submitted < u64::MAX,
        ensures
            final(self).wf(),
            final(sq).wf(),
            final(self).same_config(*old(self)),
            final(sq).capacity == old(sq).capacity,
            final(sq).flushed_q@ == old(sq).flushed_q@,
            final(self).barrier == old(self).barrier,
            final(self).completed == old(self).completed,
            final(self).bytes_written == old(self).bytes_written,
            final(self).write_ready@ == old(self).write_ready@,
            issued == (old(self).can_issue_read() && old(sq).prepared_q@.len() < old(
                sq,
            ).capacity),
            !issued ==> *final(self) == *old(self) && final(sq).prepared_q@ == old(
                sq,
            ).prepared_q@,
            issued ==> {
                let tag = old(self).read_issue_tag();
                &&& final(sq).prepared_q@ == old(sq).prepared_q@.push(old(self).read_issue_sqe())
                &&& final(self).chunks@ == if old(self).recycled@.len() > 0 {
                    old(self).chunks@.update(tag as int, old(self).read_issue_chunk())
                } else {
                    old(self).chunks@.push(old(self).read_issue_chunk())
                }
                &&& final(self).recycled@ == if old(self).recycled@.len() > 0 {
                    old(self).recycled@.drop_last()
                } else {
                    old(self).recycled@
                }
                &&& final(self).read_offset == old(self).read_offset + old(self).read_issue_len()
                &&& final(self).submitted == old(self).submitted + 1
                &&& final(self).read_origin@ == if old(self).recycled@.len() > 0 {
                    old(self).read_origin@.update(tag as int, old(self).read_offset)
                } else {
                    old(self).read_origin@.push(old(self).read_offset)
                }
            },
    {
        if !(self.read_offset < self.cp_size) {
            return false;
        }
        if self.recycled.len() == 0 && self.chunks.len() >= self.max_chunks {
            return false;
        }
        if sq.space_left() == 0 {
            return false;
        }
        let remaining: u64 = self.cp_size - self.read_offset;
        let reuse = self.recycled.len() > 0;
        let tag: usize;
        let cap_limit: usize;
        if reuse {
            tag = self.recycled[self.recycled.len() - 1];
            let _popped = self.recycled.pop();
            cap_limit = self.chunks[tag].chunk_size;
        } else {
            tag = self.chunks.len();
            cap_limit = self.chunk_size;
        }
        let len: usize = if (cap_limit as u64) < remaining {
            cap_limit
        } else {
            remaining as usize
        };
        let c = DataChunk {
            file_offset: self.read_offset,
            chunk_size: if reuse {
                cap_limit
            } else {
                len
            },
            data_start: 0,
            data_len: len,
            state: DataChunkState::READING,
        };
        proof {
            assert(c == old(self).read_issue_chunk());
            assert(len as u64 == old(self).read_issue_len());
        }
        if reuse {
            proof {
                lemma_fold_update(self.chunks@, tag as int, c);
            }
            self.chunks[tag] = c;
            self.read_origin = Ghost(self.read_origin@.update(tag as int, self.read_offset));
        } else {
            proof {
                lemma_fold_push(self.chunks@, c);
            }
            self.chunks.push(c);
            self.read_origin = Ghost(self.read_origin@.push(self.read_offset));
        }
        let mut sqe = SQE::new_uninit();
        sqe.prep_read(self.src_fd, 0, len as u32, self.read_offset);
        sqe.set_user_data(tag as u64);
        let accepted = sq.push_sqe(&sqe);
        proof {
            assert(accepted);
            assert(sqe == old(self).read_issue_sqe());
        }
        self.read_offset = self.read_offset + (len as u64);
        self.submitted = self.submitted + 1;
        proof {
            self.lemma_read_issue_wf(*old(self), tag, c);
        }
        true
    }

    /// The invariant survives a read issuance.
    proof fn lemma_read_issue_wf(self, pre: CopyPipeline, tag: usize, c: DataChunk)
        requires
            pre.wf(),
            pre.barrier is NotIssued,
            pre.submitted < u64::MAX,
            pre.can_issue_read(),
            tag == pre.read_issue_tag(),
            c == pre.read_issue_chunk(),
            self.same_config(pre),
            self.chunks@ == if pre.recycled@.len() > 0 {
                pre.chunks@.update(tag as int, c)
            } else {
                pre.chunks@.push(c)
            },
            self.recycled@ == if pre.recycled@.len() > 0 {
                pre.recycled@.drop_last()
            } else {
                pre.recycled@
            },
            self.write_ready@ == pre.write_ready@,
            self.read_offset == pre.read_offset + pre.read_issue_len(),
            self.bytes_written == pre.bytes_written,
            self.submitted == pre.submitted + 1,
            self.completed == pre.completed,
            self.barrier == pre.barrier,
            self.read_origin@ == if pre.recycled@.len() > 0 {
                pre.read_origin@.update(pre.read_issue_tag() as int, pre.read_offset)
            } else {
                pre.read_origin@.push(pre.read_offset)
            },
        ensures
            self.wf(),
    {
        let reuse = pre.recycled@.len() > 0;
        let len = pre.read_issue_len();
        assert(1 <= len);
        assert(len <= pre.cp_size - pre.read_offset);
        if reuse {
            assert(pre.recycled_entry_ok(pre.recycled@[pre.recycled@.len() - 1]));
            assert(pre.chunk_ok(pre.chunks@[tag as int]));
            lemma_fold_update(pre.chunks@, tag as int, c);
            assert(pre.chunks@[tag as int].data_len == 0);
        } else {
            lemma_fold_push(pre.chunks@, c);
        }
        // Every chunk is still ok.
        assert forall|i: int| 0 <= i < self.chunks@.len() implies self.chunk_ok(
            #[trigger] self.chunks@[i],
        ) by {
            if i == tag as int {
                assert(self.chunks@[i] == c);
            } else {
                assert(self.chunks@[i] == pre.chunks@[i]);
                assert(pre.chunk_ok(pre.chunks@[i]));
            }
        }
        // Recycle-list entries still point at idle, empty chunks.
        assert forall|k: int| 0 <= k < self.recycled@.len() implies self.recycled_entry_ok(
            #[trigger] self.recycled@[k],
        ) by {
            assert(self.recycled@[k] == pre.recycled@[k]);
            assert(pre.recycled_entry_ok(pre.recycled@[k]));
            if reuse {
                assert(pre.recycled@[k] != tag);
            }
        }
        // Write-ready entries are untouched: their chunks keep data.
        assert forall|k: int| 0 <= k < self.write_ready@.len() implies self.ready_entry_ok(
            #[trigger] self.write_ready@[k],
        ) by {
            assert(pre.ready_entry_ok(pre.write_ready@[k]));
            if reuse {
                assert(pre.chunks@[pre.write_ready@[k] as int].data_len >= 1);
                assert(pre.write_ready@[k] != tag);
            }
        }
        // Every idle chunk is still listed somewhere.
        assert forall|i: int|
            0 <= i < self.chunks@.len() && (#[trigger] self.chunks@[i]).state
                is IDLE implies self.recycled@.contains(i as usize) || self.write_ready@.contains(
            i as usize,
        ) by {
            assert(i != tag as int);
            assert(self.chunks@[i] == pre.chunks@[i]);
            if pre.recycled@.contains(i as usize) {
                let k = choose|k: int|
                    0 <= k < pre.recycled@.len() && pre.recycled@[k] == i as usize;
                if reuse {
                    assert(pre.recycled@[pre.recycled@.len() - 1] == tag);
                    assert(k < pre.recycled@.len() - 1);
                    assert(self.recycled@[k] == i as usize);
                } else {
                    assert(self.recycled@[k] == i as usize);
                }
                assert(self.recycled@.contains(i as usize));
            } else {
                assert(pre.write_ready@.contains(i as usize));
            }
        }
        // Every window is still anchored to its read origin.
        assert forall|i: int| 0 <= i < self.chunks@.len() implies window_anchored(
            #[trigger] self.chunks@[i],
            self.read_origin@[i],
        ) by {
            if i != tag as int {
                assert(self.chunks@[i] == pre.chunks@[i]);
                assert(self.read_origin@[i] == pre.read_origin@[i]);
                assert(window_anchored(pre.chunks@[i], pre.read_origin@[i]));
            }
        }
    }

    /// The tag the next write will use: the oldest write-ready chunk.
    pub open spec fn write_issue_tag(self) -> usize {
        self.write_ready@[0]
    }

    /// The descriptor the next write submission pushes: the chunk's current
    /// window, at the chunk's recorded file position.
    pub open spec fn write_issue_sqe(self) -> SQE {
        let c = self.chunks@[self.write_issue_tag() as int];
        SQE {
            opcode: Opcode::Write,
            flags: 0,
            fd: self.dst_fd,
            offset: c.file_offset,
            buf_offset: c.data_start,
            len: c.data_len as u32,
            fsync_flags: 0,
            user_data: self.write_issue_tag() as u64,
        }
    }

    /// Issue one write if a chunk holds unwritten data and a submission
    /// slot is free; otherwise change nothing. Never fails: a full queue
    /// only defers issuance.
    pub fn try_issue_write(&mut self, sq: &mut SubmissionQueue) -> (issued: bool)
        requires
            old(self).wf(),
            old(sq).wf(),
            old(self).barrier is NotIssued,
            old(self).submitted < u64::MAX,
        ensures
            final(self).wf(),
            final(sq).wf(),
            final(self).same_config(*old(self)),
            final(sq).capacity == old(sq).capacity,
            final(sq).flushed_q@ == old(sq).flushed_q@,
            final(self).barrier == old(self).barrier,
            final(self).completed == old(self).completed,
            final(self).bytes_written == old(self).bytes_written,
            final(self).read_offset == old(self).read_offset,
            final(self).recycled@ == old(self).recycled@,
            issued == (old(self).write_ready@.len() > 0 && old(sq).prepared_q@.len() < old(
                sq,
            ).capacity),
            !issued ==> *final(self) == *old(self) && final(sq).prepared_q@ == old(
                sq,
            ).prepared_q@,
            issued ==> {
                let tag = old(self).write_issue_tag();
                let c = old(self).chunks@[tag as int];
                &&& final(sq).prepared_q@ == old(sq).prepared_q@.push(old(self).write_issue_sqe())
                &&& final(self).chunks@ == old(self).chunks@.update(
                    tag as int,
                    DataChunk { state: DataChunkState::WRITING, ..c },
                )
                &&& final(self).write_ready@ == old(self).write_ready@.drop_first()
                &&& final(self).submitted == old(self).submitted + 1
            },
    {
        if self.write_ready.len() == 0 {
            return false;
        }
        if sq.space_left() == 0 {
            return false;
        }
        let tag = self.write_ready.remove(0);
        proof {
            assert(old(self).ready_entry_ok(tag));
            assert(old(self).chunk_ok(old(self).chunks@[tag as int]));
            assert(self.write_ready@ =~= old(self).write_ready@.drop_first());
        }
        let c0 = self.chunks[tag];
        let c = DataChunk { state: DataChunkState::WRITING, ..c0 };
        proof {
            lemma_fold_update(self.chunks@, tag as int, c);
        }
        self.chunks[tag] = c;
        let mut sqe = SQE::new_uninit();
        sqe.prep_write(self.dst_fd, c0.data_start, c0.data_len as u32, c0.file_offset);
        sqe.set_user_data(tag as u64);
        let accepted = sq.push_sqe(&sqe);
        proof {
            assert(accepted);
            assert(sqe == old(self).write_issue_sqe());
        }
        self.submitted = self.submitted + 1;
        proof {
            self.lemma_write_issue_wf(*old(self), tag, c);
        }
        true
    }

    /// The invariant survives a write issuance.
    proof fn lemma_write_issue_wf(self, pre: CopyPipeline, tag: usize, c: DataChunk)
        requires
            pre.wf(),
            pre.barrier is NotIssued,
            pre.submitted < u64::MAX,
            pre.write_ready@.len() > 0,
            tag == pre.write_issue_tag(),
            c == (DataChunk { state: DataChunkState::WRITING, ..pre.chunks@[tag as int] }),
            self.same_config(pre),
            self.chunks@ == pre.chunks@.update(tag as int, c),
            self.recycled@ == pre.recycled@,
            self.write_ready@ == pre.write_ready@.drop_first(),
            self.read_offset == pre.read_offset,
            self.bytes_written == pre.bytes_written,
            self.submitted == pre.submitted + 1,
            self.completed == pre.completed,
            self.barrier == pre.barrier,
            self.read_origin@ == pre.read_origin@,
        ensures
            self.wf(),
    {
        assert(pre.ready_entry_ok(pre.write_ready@[0]));
        assert(pre.chunk_ok(pre.chunks@[tag as int]));
        lemma_fold_update(pre.chunks@, tag as int, c);
        assert forall|i: int| 0 <= i < self.chunks@.len() implies self.chunk_ok(
            #[trigger] self.chunks@[i],
        ) by {
            if i == tag as int {
                assert(self.chunks@[i] == c);
            } else {
                assert(self.chunks@[i] == pre.chunks@[i]);
                assert(pre.chunk_ok(pre.chunks@[i]));
            }
        }
        assert forall|k: int| 0 <= k < self.recycled@.len() implies self.recycled_entry_ok(
            #[trigger] self.recycled@[k],
        ) by {
            assert(pre.recycled_entry_ok(pre.recycled@[k]));
            assert(pre.chunks@[pre.recycled@[k] as int].data_len == 0);
            assert(pre.recycled@[k] != tag);
        }
        assert forall|k: int| 0 <= k < self.write_ready@.len() implies self.ready_entry_ok(
            #[trigger] self.write_ready@[k],
        ) by {
            assert(self.write_ready@[k] == pre.write_ready@[k + 1]);
            assert(pre.ready_entry_ok(pre.write_ready@[k + 1]));
            assert(pre.write_ready@[k + 1] != tag);
        }
        assert forall|k1: int, k2: int|
            0 <= k1 < self.write_ready@.len() && 0 <= k2 < self.write_ready@.len() && k1
                != k2 implies #[trigger] self.write_ready@[k1] != #[trigger] self.write_ready@[k2] by {
            assert(self.write_ready@[k1] == pre.write_ready@[k1 + 1]);
            assert(self.write_ready@[k2] == pre.write_ready@[k2 + 1]);
        }
        assert forall|i: int|
            0 <= i < self.chunks@.len() && (#[trigger] self.chunks@[i]).state
                is IDLE implies self.recycled@.contains(i as usize) || self.write_ready@.contains(
            i as usize,
        ) by {
            assert(i != tag as int);
            assert(self.chunks@[i] == pre.chunks@[i]);
            if pre.recycled@.contains(i as usize) {
                assert(self.recycled@.contains(i as usize));
            } else {
                assert(pre.write_ready@.contains(i as usize));
                let k = choose|k: int|
                    0 <= k < pre.write_ready@.len() && pre.write_ready@[k] == i as usize;
                assert(pre.write_ready@[0] == tag);
                assert(k >= 1);
                assert(self.write_ready@[k - 1] == i as usize);
                assert(self.write_ready@.contains(i as usize));
            }
        }
    }

    /// Issue reads while source bytes remain, a chunk is available and a
    /// submission slot is free. When it stops short of the source's end it
    /// is only because slots or chunks ran out (or the submission counter
    /// is saturated): backpressure defers issuance, it never fails.
    pub fn issue_reads(&mut self, sq: &mut SubmissionQueue)
        requires
            old(self).wf(),
            old(sq).wf(),
            old(self).barrier is NotIssued,
        ensures
            final(self).wf(),
            final(sq).wf(),
            final(self).same_config(*old(self)),
            final(sq).capacity == old(sq).capacity,
            final(sq).flushed_q@ == old(sq).flushed_q@,
            final(self).barrier == old(self).barrier,
            final(self).completed == old(self).completed,
            final(self).bytes_written == old(self).bytes_written,
            final(self).write_ready@ == old(self).write_ready@,
            final(self).submitted >= old(self).submitted,
            final(sq).prepared_q@.len() - old(sq).prepared_q@.len() == final(self).submitted
                - old(self).submitted,
            final(self).read_offset < final(self).cp_size ==> (final(sq).prepared_q@.len()
                == final(sq).capacity || (final(self).recycled@.len() == 0
                && final(self).chunks@.len() >= final(self).max_chunks)
                || final(self).submitted == u64::MAX),
    {
        loop
            invariant
                self.wf(),
                sq.wf(),
                self.same_config(*old(self)),
                sq.capacity == old(sq).capacity,
                sq.flushed_q@ == old(sq).flushed_q@,
                self.barrier is NotIssued,
                self.barrier == old(self).barrier,
                self.completed == old(self).completed,
                self.bytes_written == old(self).bytes_written,
                self.write_ready@ == old(self).write_ready@,
                self.submitted >= old(self).submitted,
                sq.prepared_q@.len() - old(sq).prepared_q@.len() == self.submitted - old(
                    self,
                ).submitted,
            ensures
                self.read_offset < self.cp_size ==> (sq.prepared_q@.len() == sq.capacity || (
                self.recycled@.len() == 0 && self.chunks@.len() >= self.max_chunks)
                    || self.submitted == u64::MAX),
            decreases self.cp_size - self.read_offset,
        {
            if self.submitted == u64::MAX {
                break ;
            }
            let issued = self.try_issue_read(sq);
            if !issued {
                break ;
            }
        }
    }

    /// Issue writes while a chunk holds unwritten data and a submission
    /// slot is free. As with reads, stopping short is deferral, not
    /// failure.
    pub fn issue_writes(&mut self, sq: &mut SubmissionQueue)
        requires
            old(self).wf(),
            old(sq).wf(),
            old(self).barrier is NotIssued,
        ensures
            final(self).wf(),
            final(sq).wf(),
            final(self).same_config(*old(self)),
            final(sq).capacity == old(sq).capacity,
            final(sq).flushed_q@ == old(sq).flushed_q@,
            final(self).barrier == old(self).barrier,
            final(self).completed == old(self).completed,
            final(self).bytes_written == old(self).bytes_written,
            final(self).read_offset == old(self).read_offset,
            final(self).recycled@ == old(self).recycled@,
            final(self).submitted >= old(self).submitted,
            final(sq).prepared_q@.len() - old(sq).prepared_q@.len() == final(self).submitted
                - old(self).submitted,
            final(self).write_ready@.len() > 0 ==> (final(sq).prepared_q@.len()
                == final(sq).capacity || final(self).submitted == u64::MAX),
    {
        loop
            invariant
                self.wf(),
                sq.wf(),
                self.same_config(*old(self)),
                sq.capacity == old(sq).capacity,
                sq.flushed_q@ == old(sq).flushed_q@,
                self.barrier is NotIssued,
                self.barrier == old(self).barrier,
                self.completed == old(self).completed,
                self.bytes_written == old(self).bytes_written,
                self.read_offset == old(self).read_offset,
                self.recycled@ == old(self).recycled@,
                self.submitted >= old(self).submitted,
                sq.prepared_q@.len() - old(sq).prepared_q@.len() == self.submitted - old(
                    self,
                ).submitted,
            ensures
                self.write_ready@.len() > 0 ==> (sq.prepared_q@.len() == sq.capacity
                    || self.submitted == u64::MAX),
            decreases self.write_ready@.len(),
        {
            if self.submitted == u64::MAX {
                break ;
            }
            let issued = self.try_issue_write(sq);
            if !issued {
                break ;
            }
        }
    }

    /// The chunk as a successful read completion reclaims it: back in the
    /// pipeline's hands, its window exactly the bytes just read.
    pub open spec fn read_complete_chunk(self, tag: int) -> DataChunk {
        DataChunk { state: DataChunkState::IDLE, ..self.chunks@[tag] }
    }

    /// The chunk as a write completion of `n` bytes reclaims it: the window
    /// and its file position advanced past what was written.
    pub open spec fn write_complete_chunk(self, tag: int, n: int) -> DataChunk {
        let c = self.chunks@[tag];
        DataChunk {
            file_offset: (c.file_offset + n) as u64,
            data_start: (c.data_start + n) as usize,
            data_len: (c.data_len - n) as usize,
            state: DataChunkState::IDLE,
            chunk_size: c.chunk_size,
        }
    }

    /// Apply one completion: recover the chunk (or the barrier) from the
    /// correlation tag, reclaim it, and move the pipeline's books. Exactly
    /// one state transition happens per applied completion; a completion
    /// that no in-flight operation can explain is an invariant violation
    /// and changes nothing.
    pub fn apply_cqe(&mut self, cqe: &CQE) -> (r: Result<(), CopyError>)
        requires
            old(self).wf(),
        ensures
            final(self).wf(),
            final(self).same_config(*old(self)),
            final(self).read_offset == old(self).read_offset,
            final(self).submitted == old(self).submitted,
            r is Err ==> *final(self) == *old(self),
            r is Ok ==> final(self).completed == old(self).completed + 1,
            // The durability barrier's completion.
            cqe.user_data == BARRIER_TAG && !(old(self).barrier is InFlight) ==> r == Result::<(), CopyError>::Err(CopyError::InvariantViolation { tag: cqe.user_data }),
            cqe.user_data == BARRIER_TAG && old(self).barrier is InFlight && cqe.res < 0 ==> r
                == Result::<(), CopyError>::Err(
                CopyError::IoOperationError { op: OpKind::Fsync, tag: cqe.user_data, code: cqe.res },
            ),
            cqe.user_data == BARRIER_TAG && old(self).barrier is InFlight && cqe.res >= 0 ==> (r
                is Ok && final(self).barrier is Done && final(self).chunks@ == old(self).chunks@
                && final(self).recycled@ == old(self).recycled@ && final(self).write_ready@ == old(
                self,
            ).write_ready@ && final(self).bytes_written == old(self).bytes_written),
            // A tag no chunk answers to.
            cqe.user_data != BARRIER_TAG && cqe.user_data >= old(self).chunks@.len() ==> r
                == Result::<(), CopyError>::Err(
                CopyError::InvariantViolation { tag: cqe.user_data },
            ),
            // A chunk's completion.
            cqe.user_data != BARRIER_TAG && cqe.user_data < old(self).chunks@.len() ==> {
                let tag = cqe.user_data as int;
                let c = old(self).chunks@[tag];
                &&& final(self).barrier == old(self).barrier
                &&& (c.state is IDLE ==> r == Result::<(), CopyError>::Err(
                    CopyError::InvariantViolation { tag: cqe.user_data },
                ))
                &&& (c.state is READING ==> {
                    &&& (cqe.res < 0 ==> r == Result::<(), CopyError>::Err(
                        (CopyError::IoOperationError {
                            op: OpKind::Read,
                            tag: cqe.user_data,
                            code: cqe.res,
                        }),
                    ))
                    &&& (cqe.res >= 0 && cqe.res < c.data_len ==> r == Result::<(), CopyError>::Err(
                        (CopyError::UnexpectedEndOfFile {
                            tag: cqe.user_data,
                            file_offset: c.file_offset,
                            requested: c.data_len,
                            transferred: cqe.res as u32,
                        }),
                    ))
                    &&& (cqe.res > c.data_len ==> r == Result::<(), CopyError>::Err(
                        CopyError::InvariantViolation { tag: cqe.user_data },
                    ))
                    &&& (cqe.res == c.data_len ==> {
                        &&& r is Ok
                        &&& final(self).chunks@ == old(self).chunks@.update(
                            tag,
                            old(self).read_complete_chunk(tag),
                        )
                        &&& final(self).write_ready@ == old(self).write_ready@.push(
                            cqe.user_data as usize,
                        )
                        &&& final(self).recycled@ == old(self).recycled@
                        &&& final(self).bytes_written == old(self).bytes_written
                    })
                })
                &&& (c.state is WRITING ==> {
                    &&& (cqe.res < 0 ==> r == Result::<(), CopyError>::Err(
                        (CopyError::IoOperationError {
                            op: OpKind::Write,
                            tag: cqe.user_data,
                            code: cqe.res,
                        }),
                    ))
                    &&& (cqe.res > c.data_len ==> r == Result::<(), CopyError>::Err(
                        CopyError::InvariantViolation { tag: cqe.user_data },
                    ))
                    &&& (0 <= cqe.res <= c.data_len ==> {
                        &&& r is Ok
                        &&& final(self).chunks@ == old(self).chunks@.update(
                            tag,
                            old(self).write_complete_chunk(tag, cqe.res as int),
                        )
                        &&& final(self).bytes_written == old(self).bytes_written + cqe.res
                        &&& (cqe.res == c.data_len ==> final(self).recycled@ == old(
                            self,
                        ).recycled@.push(cqe.user_data as usize) && final(self).write_ready@ == old(
                            self,
                        ).write_ready@)
                        &&& (cqe.res < c.data_len ==> final(self).write_ready@ == old(
                            self,
                        ).write_ready@.push(cqe.user_data as usize) && final(self).recycled@ == old(
                            self,
                        ).recycled@)
                    })
                })
            },
    {
        let tag64 = cqe.user_data;
        let res = cqe.res;
        if tag64 == BARRIER_TAG {
            match self.barrier {
                BarrierState::InFlight => {
                    if res < 0 {
                        Err(CopyError::IoOperationError { op: OpKind::Fsync, tag: tag64, code: res })
                    } else {
                        self.barrier = BarrierState::Done;
                        self.completed = self.completed + 1;
                        Ok(())
                    }
                },
                _ => Err(CopyError::InvariantViolation { tag: tag64 }),
            }
        } else if tag64 >= self.chunks.len() as u64 {
            Err(CopyError::InvariantViolation { tag: tag64 })
        } else {
            let tag = tag64 as usize;
            let c = self.chunks[tag];
            proof {
                assert(old(self).chunk_ok(c));
            }
            match c.state {
                DataChunkState::IDLE => Err(CopyError::InvariantViolation { tag: tag64 }),
                DataChunkState::READING => {
                    if res < 0 {
                        Err(CopyError::IoOperationError { op: OpKind::Read, tag: tag64, code: res })
                    } else if (res as u64) < (c.data_len as u64) {
                        Err(
                            CopyError::UnexpectedEndOfFile {
                                tag: tag64,
                                file_offset: c.file_offset,
                                requested: c.data_len,
                                transferred: res as u32,
                            },
                        )
                    } else if (res as u64) > (c.data_len as u64) {
                        Err(CopyError::InvariantViolation { tag: tag64 })
                    } else {
                        let c2 = DataChunk { state: DataChunkState::IDLE, ..c };
                        proof {
                            lemma_fold_update(self.chunks@, tag as int, c2);
                            lemma_inflight_lower_bound(self.chunks@, tag as int);
                        }
                        self.chunks[tag] = c2;
                        self.write_ready.push(tag);
                        self.completed = self.completed + 1;
                        proof {
                            self.lemma_read_complete_wf(*old(self), tag);
                        }
                        Ok(())
                    }
                },
                DataChunkState::WRITING => {
                    if res < 0 {
                        Err(CopyError::IoOperationError { op: OpKind::Write, tag: tag64, code: res })
                    } else if (res as u64) > (c.data_len as u64) {
                        Err(CopyError::InvariantViolation { tag: tag64 })
                    } else {
                        let n = res as usize;
                        proof {
                            lemma_fold_update(
                                self.chunks@,
                                tag as int,
                                old(self).write_complete_chunk(tag as int, n as int),
                            );
                            lemma_inflight_lower_bound(self.chunks@, tag as int);
                            lemma_window_lower_bound(self.chunks@, tag as int);
                        }
                        let c2 = DataChunk {
                            file_offset: c.file_offset + (n as u64),
                            data_start: c.data_start + n,
                            data_len: c.data_len - n,
                            state: DataChunkState::IDLE,
                            chunk_size: c.chunk_size,
                        };
                        self.chunks[tag] = c2;
                        self.bytes_written = self.bytes_written + (n as u64);
                        if c2.data_len == 0 {
                            self.recycled.push(tag);
                        } else {
                            self.write_ready.push(tag);
                        }
                        self.completed = self.completed + 1;
                        proof {
                            self.lemma_write_complete_wf(*old(self), tag, n);
                        }
                        Ok(())
                    }
                },
            }
        }
    }

    /// The invariant survives reclaiming a chunk from a read completion.
    proof fn lemma_read_complete_wf(self, pre: CopyPipeline, tag: usize)
        requires
            pre.wf(),
            tag < pre.chunks@.len(),
            pre.chunks@[tag as int].state is READING,
            self.same_config(pre),
            self.chunks@ == pre.chunks@.update(tag as int, pre.read_complete_chunk(tag as int)),
            self.recycled@ == pre.recycled@,
            self.write_ready@ == pre.write_ready@.push(tag),
            self.read_offset == pre.read_offset,
            self.bytes_written == pre.bytes_written,
            self.submitted == pre.submitted,
            self.completed == pre.completed + 1,
            self.barrier == pre.barrier,
            self.read_origin@ == pre.read_origin@,
        ensures
            self.wf(),
    {
        let c2 = pre.read_complete_chunk(tag as int);
        assert(pre.chunk_ok(pre.chunks@[tag as int]));
        lemma_fold_update(pre.chunks@, tag as int, c2);
        lemma_inflight_lower_bound(pre.chunks@, tag as int);
        assert forall|i: int| 0 <= i < self.chunks@.len() implies self.chunk_ok(
            #[trigger] self.chunks@[i],
        ) by {
            if i != tag as int {
                assert(self.chunks@[i] == pre.chunks@[i]);
            }
            assert(pre.chunk_ok(pre.chunks@[i]));
        }
        assert forall|k: int| 0 <= k < self.recycled@.len() implies self.recycled_entry_ok(
            #[trigger] self.recycled@[k],
        ) by {
            assert(pre.recycled_entry_ok(pre.recycled@[k]));
            assert(pre.recycled@[k] != tag);
        }
        assert forall|k: int| 0 <= k < self.write_ready@.len() implies self.ready_entry_ok(
            #[trigger] self.write_ready@[k],
        ) by {
            if k < pre.write_ready@.len() {
                assert(self.write_ready@[k] == pre.write_ready@[k]);
                assert(pre.ready_entry_ok(pre.write_ready@[k]));
                assert(pre.write_ready@[k] != tag);
            } else {
                assert(self.write_ready@[k] == tag);
            }
        }
        assert forall|k1: int, k2: int|
            0 <= k1 < self.write_ready@.len() && 0 <= k2 < self.write_ready@.len() && k1
                != k2 implies #[trigger] self.write_ready@[k1] != #[trigger] self.write_ready@[k2] by {
            if k1 < pre.write_ready@.len() && k2 < pre.write_ready@.len() {
            } else if k1 < pre.write_ready@.len() {
                assert(pre.ready_entry_ok(pre.write_ready@[k1]));
                assert(self.write_ready@[k2] == tag);
            } else {
                assert(pre.ready_entry_ok(pre.write_ready@[k2]));
                assert(self.write_ready@[k1] == tag);
            }
        }
        assert forall|i: int|
            0 <= i < self.chunks@.len() && (#[trigger] self.chunks@[i]).state
                is IDLE implies self.recycled@.contains(i as usize) || self.write_ready@.contains(
            i as usize,
        ) by {
            if i == tag as int {
                assert(self.write_ready@[self.write_ready@.len() - 1] == tag);
                assert(self.write_ready@.contains(i as usize));
            } else {
                assert(self.chunks@[i] == pre.chunks@[i]);
                if pre.recycled@.contains(i as usize) {
                } else {
                    assert(pre.write_ready@.contains(i as usize));
                    let k = choose|k: int|
                        0 <= k < pre.write_ready@.len() && pre.write_ready@[k] == i as usize;
                    assert(self.write_ready@[k] == i as usize);
                    assert(self.write_ready@.contains(i as usize));
                }
            }
        }
        assert forall|i: int| 0 <= i < self.chunks@.len() implies window_anchored(
            #[trigger] self.chunks@[i],
            self.read_origin@[i],
        ) by {
            if i != tag as int {
                assert(self.chunks@[i] == pre.chunks@[i]);
            }
            assert(window_anchored(pre.chunks@[i], pre.read_origin@[i]));
        }
    }

    /// The invariant survives reclaiming a chunk from a write completion
    /// of `n` bytes, short writes included.
    proof fn lemma_write_complete_wf(self, pre: CopyPipeline, tag: usize, n: usize)
        requires
            pre.wf(),
            tag < pre.chunks@.len(),
            pre.chunks@[tag as int].state is WRITING,
            n <= pre.chunks@[tag as int].data_len,
            self.same_config(pre),
            self.chunks@ == pre.chunks@.update(
                tag as int,
                pre.write_complete_chunk(tag as int, n as int),
            ),
            n == pre.chunks@[tag as int].data_len ==> self.recycled@ == pre.recycled@.push(tag)
                && self.write_ready@ == pre.write_ready@,
            n < pre.chunks@[tag as int].data_len ==> self.write_ready@ == pre.write_ready@.push(tag)
                && self.recycled@ == pre.recycled@,
            self.read_offset == pre.read_offset,
            self.bytes_written == pre.bytes_written + n,
            self.submitted == pre.submitted,
            self.completed == pre.completed + 1,
            self.barrier == pre.barrier,
            self.read_origin@ == pre.read_origin@,
        ensures
            self.wf(),
    {
        let c = pre.chunks@[tag as int];
        let c2 = pre.write_complete_chunk(tag as int, n as int);
        assert(pre.chunk_ok(c));
        lemma_fold_update(pre.chunks@, tag as int, c2);
        lemma_inflight_lower_bound(pre.chunks@, tag as int);
        lemma_window_lower_bound(pre.chunks@, tag as int);
        assert forall|i: int| 0 <= i < self.chunks@.len() implies self.chunk_ok(
            #[trigger] self.chunks@[i],
        ) by {
            if i != tag as int {
                assert(self.chunks@[i] == pre.chunks@[i]);
            }
            assert(pre.chunk_ok(pre.chunks@[i]));
        }
        assert forall|k: int| 0 <= k < self.recycled@.len() implies self.recycled_entry_ok(
            #[trigger] self.recycled@[k],
        ) by {
            if k < pre.recycled@.len() {
                assert(self.recycled@[k] == pre.recycled@[k]);
                assert(pre.recycled_entry_ok(pre.recycled@[k]));
                assert(pre.recycled@[k] != tag);
            } else {
                assert(self.recycled@[k] == tag);
                assert(c2.data_len == 0);
            }
        }
        assert forall|k1: int, k2: int|
            0 <= k1 < self.recycled@.len() && 0 <= k2 < self.recycled@.len() && k1
                != k2 implies #[trigger] self.recycled@[k1] != #[trigger] self.recycled@[k2] by {
            if k1 < pre.recycled@.len() && k2 < pre.recycled@.len() {
            } else if k1 < pre.recycled@.len() {
                assert(pre.recycled_entry_ok(pre.recycled@[k1]));
                assert(self.recycled@[k2] == tag);
            } else if k2 < pre.recycled@.len() {
                assert(pre.recycled_entry_ok(pre.recycled@[k2]));
                assert(self.recycled@[k1] == tag);
            }
        }
        assert forall|k: int| 0 <= k < self.write_ready@.len() implies self.ready_entry_ok(
            #[trigger] self.write_ready@[k],
        ) by {
            if k < pre.write_ready@.len() {
                assert(self.write_ready@[k] == pre.write_ready@[k]);
                assert(pre.ready_entry_ok(pre.write_ready@[k]));
                assert(pre.write_ready@[k] != tag);
            } else {
                assert(self.write_ready@[k] == tag);
                assert(c2.data_len >= 1);
            }
        }
        assert forall|k1: int, k2: int|
            0 <= k1 < self.write_ready@.len() && 0 <= k2 < self.write_ready@.len() && k1
                != k2 implies #[trigger] self.write_ready@[k1] != #[trigger] self.write_ready@[k2] by {
            if k1 < pre.write_ready@.len() && k2 < pre.write_ready@.len() {
            } else if k1 < pre.write_ready@.len() {
                assert(pre.ready_entry_ok(pre.write_ready@[k1]));
                assert(self.write_ready@[k2] == tag);
            } else if k2 < pre.write_ready@.len() {
                assert(pre.ready_entry_ok(pre.write_ready@[k2]));
                assert(self.write_ready@[k1] == tag);
            }
        }
        assert forall|i: int|
            0 <= i < self.chunks@.len() && (#[trigger] self.chunks@[i]).state
                is IDLE implies self.recycled@.contains(i as usize) || self.write_ready@.contains(
            i as usize,
        ) by {
            if i == tag as int {
                if n == c.data_len {
                    assert(self.recycled@[self.recycled@.len() - 1] == tag);
                    assert(self.recycled@.contains(i as usize));
                } else {
                    assert(self.write_ready@[self.write_ready@.len() - 1] == tag);
                    assert(self.write_ready@.contains(i as usize));
                }
            } else {
                assert(self.chunks@[i] == pre.chunks@[i]);
                if pre.recycled@.contains(i as usize) {
                    let k = choose|k: int|
                        0 <= k < pre.recycled@.len() && pre.recycled@[k] == i as usize;
                    assert(self.recycled@[k] == i as usize);
                    assert(self.recycled@.contains(i as usize));
                } else {
                    assert(pre.write_ready@.contains(i as usize));
                    let k = choose|k: int|
                        0 <= k < pre.write_ready@.len() && pre.write_ready@[k] == i as usize;
                    assert(self.write_ready@[k] == i as usize);
                    assert(self.write_ready@.contains(i as usize));
                }
            }
        }
        assert forall|i: int| 0 <= i < self.chunks@.len() implies window_anchored(
            #[trigger] self.chunks@[i],
            self.read_origin@[i],
        ) by {
            if i != tag as int {
                assert(self.chunks@[i] == pre.chunks@[i]);
            }
            assert(window_anchored(pre.chunks@[i], pre.read_origin@[i]));
        }
    }

    /// The descriptor the durability barrier pushes: a sync of the
    /// destination with the ordering barrier flag, so it executes only
    /// after every previously flushed write has completed.
    pub open spec fn barrier_sqe(self) -> SQE {
        SQE {
            opcode: Opcode::Fsync,
            flags: IO_DRAIN,
            fd: self.dst_fd,
            offset: 0,
            buf_offset: 0,
            len: 0,
            fsync_flags: 0,
            user_data: BARRIER_TAG,
        }
    }

    /// Once every source byte is written, issue the durability barrier if a
    /// submission slot is free; otherwise change nothing and let the caller
    /// retry after the next flush.
    pub fn try_issue_barrier(&mut self, sq: &mut SubmissionQueue) -> (issued: bool)
        requires
            old(self).wf(),
            old(sq).wf(),
            old(self).barrier is NotIssued,
            old(self).bytes_written == old(self).cp_size,
            old(self).submitted < u64::MAX,
        ensures
            final(self).wf(),
            final(sq).wf(),
            final(self).same_config(*old(self)),
            final(sq).capacity == old(sq).capacity,
            final(sq).flushed_q@ == old(sq).flushed_q@,
            final(self).chunks@ == old(self).chunks@,
            final(self).recycled@ == old(self).recycled@,
            final(self).write_ready@ == old(self).write_ready@,
            final(self).read_offset == old(self).read_offset,
            final(self).bytes_written == old(self).bytes_written,
            final(self).completed == old(self).completed,
            issued == (old(sq).prepared_q@.len() < old(sq).capacity),
            !issued ==> *final(self) == *old(self) && final(sq).prepared_q@ == old(
                sq,
            ).prepared_q@,
            issued ==> final(self).barrier is InFlight && final(self).submitted == old(
                self,
            ).submitted + 1 && final(sq).prepared_q@ == old(sq).prepared_q@.push(
                old(self).barrier_sqe(),
            ),
    {
        if sq.space_left() == 0 {
            return false;
        }
        let mut sqe = SQE::new_uninit();
        sqe.prep_fsync(self.dst_fd, 0);
        sqe.enable_flags(IO_DRAIN);
        sqe.set_user_data(BARRIER_TAG);
        proof {
            assert(0u8 | IO_DRAIN == IO_DRAIN) by (bit_vector);
            assert(sqe == old(self).barrier_sqe());
        }
        let accepted = sq.push_sqe(&sqe);
        proof {
            assert(accepted);
        }
        self.barrier = BarrierState::InFlight;
        self.submitted = self.submitted + 1;
        true
    }

    /// Whether every source byte has been acknowledged as written.
    pub fn done_streaming(&self) -> (b: bool)
        ensures
            b == (self.bytes_written == self.cp_size),
    {
        self.bytes_written == self.cp_size
    }

    /// Where the final durability barrier stands.
    pub fn barrier_state(&self) -> (s: BarrierState)
        ensures
            s == self.barrier,
    {
        self.barrier
    }

    /// Whether the copy is finished: the barrier's completion was applied.
    pub fn finished(&self) -> (b: bool)
        ensures
            b == (self.barrier is Done),
    {
        match self.barrier {
            BarrierState::Done => true,
            _ => false,
        }
    }

    /// Operations handed to the submission queue so far.
    pub fn submitted(&self) -> (r: u64)
        ensures
            r == self.submitted,
    {
        self.submitted
    }

    /// Completions applied so far.
    pub fn completed(&self) -> (r: u64)
        ensures
            r == self.completed,
    {
        self.completed
    }

    /// Bytes acknowledged by write completions so far.
    pub fn bytes_written(&self) -> (r: u64)
        ensures
            r == self.bytes_written,
    {
        self.bytes_written
    }

    /// The next source offset a read will be issued at.
    pub fn read_offset(&self) -> (r: u64)
        ensures
            r == self.read_offset,
    {
        self.read_offset
    }

    /// How many chunks are live, recycled ones included.
    pub fn resident_chunks(&self) -> (r: usize)
        ensures
            r == self.chunks@.len(),
    {
        self.chunks.len()
    }
}

/// Bounded residency: a well-formed pipeline never holds more live chunks
/// than the configured maximum, at any point of a copy.
pub proof fn lemma_bounded_residency(p: CopyPipeline)
    requires
        p.wf(),
    ensures
        p.chunks@.len() <= p.max_chunks,
{
}

/// Barrier ordering, on the pipeline's side: the barrier needs streaming
/// to be over, and streaming is over only when every lent chunk has been
/// reclaimed — so every read and write completion has been applied before
/// the barrier can even be submitted, and the only operation that can be
/// in flight beside it is the barrier itself. Its drain flag then keeps
/// the executor from running it before earlier flushed writes.
pub proof fn lemma_barrier_after_writes(p: CopyPipeline)
    requires
        p.wf(),
        p.bytes_written == p.cp_size,
    ensures
        p.submitted - p.completed == (if p.barrier is InFlight {
            1int
        } else {
            0int
        }),
        forall|i: int| 0 <= i < p.chunks@.len() ==> (#[trigger] p.chunks@[i]).state is IDLE,
{
    assert(sum_window(p.chunks@) == 0);
    lemma_empty_windows(p.chunks@);
    assert forall|i: int| 0 <= i < p.chunks@.len() implies (#[trigger] p.chunks@[i]).state
        is IDLE by {
        assert(p.chunk_ok(p.chunks@[i]));
        assert(p.chunks@[i].data_len == 0);
    }
    lemma_all_idle_no_inflight(p.chunks@);
}

/// Round-trip correspondence, on the pipeline's side: the write descriptor
/// issued next sends each buffer byte back to the very file position that
/// the read filling that buffer took it from (`offset - buf_offset` is the
/// chunk's read origin, and the window never leaves the read's range). An
/// executor that moves bytes where the descriptors say therefore produces
/// a destination whose bytes equal the source's, which is what the
/// simulated runs check end to end.
pub proof fn lemma_write_matches_read_origin(p: CopyPipeline)
    requires
        p.wf(),
        p.write_ready@.len() > 0,
    ensures
        p.write_issue_sqe().offset == p.read_origin@[p.write_issue_tag() as int]
            + p.write_issue_sqe().buf_offset,
        p.write_issue_sqe().user_data == p.write_issue_tag(),
{
    let tag = p.write_issue_tag();
    assert(p.ready_entry_ok(p.write_ready@[0]));
    assert(window_anchored(p.chunks@[tag as int], p.read_origin@[tag as int]));
}

/// Exactly-once reclamation, at the end of a run: once the barrier's
/// completion has been applied to a well-formed pipeline, every submitted
/// operation has been matched by exactly one applied completion, every
/// source byte was read and acknowledged as written, every chunk is back
/// in the pipeline's hands, and nothing is left waiting to be written.
pub proof fn lemma_run_complete(p: CopyPipeline)
    requires
        p.wf(),
        p.barrier is Done,
    ensures
        p.submitted == p.completed,
        p.bytes_written == p.cp_size,
        p.read_offset == p.cp_size,
        p.write_ready@.len() == 0,
        forall|i: int| 0 <= i < p.chunks@.len() ==> (#[trigger] p.chunks@[i]).state is IDLE,
{
    assert(p.bytes_written == p.cp_size);
    assert(sum_window(p.chunks@) == 0);
    lemma_empty_windows(p.chunks@);
    assert forall|i: int| 0 <= i < p.chunks@.len() implies (#[trigger] p.chunks@[i]).state
        is IDLE by {
        assert(p.chunk_ok(p.chunks@[i]));
        assert(p.chunks@[i].data_len == 0);
    }
    lemma_all_idle_no_inflight(p.chunks@);
    if p.write_ready@.len() > 0 {
        assert(p.ready_entry_ok(p.write_ready@[0]));
        assert(p.chunks@[p.write_ready@[0] as int].data_len == 0);
        assert(false);
    }
}

} // verus!
