//! Data chunks: the unit of buffer ownership in the copy pipeline.
//!
//! A chunk stands for one fixed-capacity buffer together with its
//! bookkeeping: where in the destination file its data belongs, which part
//! of the buffer currently holds valid data (the window), and whether the
//! buffer is owned by the pipeline (idle) or lent to the executor for a
//! read or a write in flight. The bytes themselves live with whoever
//! performs the I/O; every decision the pipeline makes is a function of
//! this bookkeeping alone.

use vstd::prelude::*;

verus! {

/// The lifecycle state of a chunk.
#[derive(Clone, Copy, PartialEq, Eq, Structural, Debug)]
pub enum DataChunkState {
    /// Owned by the pipeline; no operation in flight.
    IDLE,
    /// Lent to the executor as the target of a read.
    READING,
    /// Lent to the executor as the source of a write.
    WRITING,
}

/// One chunk's bookkeeping.
#[derive(Clone, Copy, PartialEq, Eq, Structural, Debug)]
pub struct DataChunk {
    /// File position the chunk's data window belongs at.
    pub file_offset: u64,
    /// The buffer's fixed capacity in bytes.
    pub chunk_size: usize,
    /// Where the valid data window starts within the buffer.
    pub data_start: usize,
    /// How many bytes the window holds.
    pub data_len: usize,
    /// Whose hands the buffer is in.
    pub state: DataChunkState,
}

impl DataChunk {
    /// The window always lies within the buffer.
    pub open spec fn inv(self) -> bool {
        self.data_start + self.data_len <= self.chunk_size
    }

    /// A fresh idle chunk with an empty window.
    pub fn allocate(file_offset: u64, chunk_size: usize) -> (c: DataChunk)
        ensures
            c == (DataChunk {
                file_offset,
                chunk_size,
                data_start: 0,
                data_len: 0,
                state: DataChunkState::IDLE,
            }),
            c.inv(),
    {
        DataChunk { file_offset, chunk_size, data_start: 0, data_len: 0, state: DataChunkState::IDLE }
    }

    /// The lifecycle state.
    pub fn state(&self) -> (s: DataChunkState)
        ensures
            s == self.state,
    {
        self.state
    }

    /// Move to another lifecycle state.
    pub fn set_state(&mut self, state: DataChunkState)
        ensures
            *final(self) == (DataChunk { state, ..*old(self) }),
    {
        self.state = state;
    }

    /// Make the window cover the whole buffer.
    pub fn set_full_filled(&mut self)
        ensures
            *final(self) == (DataChunk {
                data_start: 0,
                data_len: old(self).chunk_size,
                ..*old(self)
            }),
            final(self).inv(),
    {
        self.data_start = 0;
        self.data_len = self.chunk_size;
    }

    /// Reposition the window to `[start, end)` within the buffer.
    pub fn set_data_range(&mut self, start: usize, end: usize)
        requires
            start <= end <= old(self).chunk_size,
        ensures
            *final(self) == (DataChunk {
                data_start: start,
                data_len: (end - start) as usize,
                ..*old(self)
            }),
            final(self).inv(),
    {
        self.data_start = start;
        self.data_len = end - start;
    }

    /// Where the window starts within the buffer.
    pub fn data_start(&self) -> (r: usize)
        ensures
            r == self.data_start,
    {
        self.data_start
    }

    /// How many bytes the window holds.
    pub fn data_len(&self) -> (r: usize)
        ensures
            r == self.data_len,
    {
        self.data_len
    }

    /// The file position the window belongs at.
    pub fn file_offset(&self) -> (r: u64)
        ensures
            r == self.file_offset,
    {
        self.file_offset
    }

    /// Record a new file position for the window.
    pub fn set_file_offset(&mut self, offset: u64)
        ensures
            *final(self) == (DataChunk { file_offset: offset, ..*old(self) }),
    {
        self.file_offset = offset;
    }

    /// Shrink the window from the front by `n_bytes`, after that many bytes
    /// of it have been consumed.
    pub fn consume_data(&mut self, n_bytes: usize)
        requires
            old(self).inv(),
            n_bytes <= old(self).data_len,
        ensures
            *final(self) == (DataChunk {
                data_start: (old(self).data_start + n_bytes) as usize,
                data_len: (old(self).data_len - n_bytes) as usize,
                ..*old(self)
            }),
            final(self).inv(),
    {
        self.data_start = self.data_start + n_bytes;
        self.data_len = self.data_len - n_bytes;
    }
}

} // verus!
