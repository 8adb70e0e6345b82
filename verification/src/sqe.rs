//! Submission queue entries: fixed-shape descriptors for the operations the
//! executor is asked to perform.
//!
//! A descriptor never carries a raw buffer address. Instead it names a
//! buffer by the 64-bit correlation tag in `user_data` and a byte position
//! inside that buffer (`buf_offset`). The party that owns the tagged buffer
//! hands it over when the descriptor is flushed and takes it back when the
//! matching completion is consumed.

use vstd::prelude::*;

verus! {

/// Request an explicitly registered file slot instead of a plain descriptor.
pub const FIXED_FILE: u8 = 0x01;

/// Ordering barrier: the operation starts only after every previously
/// flushed operation has completed, and operations flushed after it do not
/// start until it completes.
pub const IO_DRAIN: u8 = 0x02;

/// Link this operation to the next one in the same flush.
pub const IO_LINK: u8 = 0x04;

/// Like [`IO_LINK`], but the link survives a failed predecessor.
pub const IO_HARDLINK: u8 = 0x08;

/// Hint that the operation should be run asynchronously from the start.
pub const ASYNC: u8 = 0x10;

/// Let the executor pick the buffer from a registered group.
pub const BUFFER_SELECT: u8 = 0x20;

/// Flush only file data, not metadata, on a sync operation.
pub const FSYNC_DATASYNC: u32 = 0x01;

/// The kind of operation a descriptor requests.
#[derive(Clone, Copy, PartialEq, Eq, Structural, Debug)]
pub enum Opcode {
    Nop,
    Read,
    Write,
    Fsync,
}

/// A submission queue entry.
///
/// `len` is 32 bits wide, as in the underlying descriptor format: a single
/// operation never transfers more than `u32::MAX` bytes.
#[derive(Clone, Copy, PartialEq, Eq, Structural, Debug)]
pub struct SQE {
    /// Which operation is requested.
    pub opcode: Opcode,
    /// Submission flags ([`IO_DRAIN`] and the rest).
    pub flags: u8,
    /// The target file handle.
    pub fd: i32,
    /// File position the operation starts at.
    pub offset: u64,
    /// Byte position inside the tagged buffer where the data window starts.
    pub buf_offset: usize,
    /// Number of bytes to transfer.
    pub len: u32,
    /// Flags for a sync operation ([`FSYNC_DATASYNC`]).
    pub fsync_flags: u32,
    /// Correlation tag, round-tripped unchanged into the completion.
    pub user_data: u64,
}

/// The descriptor that a freshly prepared operation produces: everything
/// not named by the operation is zeroed, and the tag is stamped afterwards.
pub open spec fn prepared_sqe(
    opcode: Opcode,
    fd: i32,
    buf_offset: usize,
    n_bytes: u32,
    offset: u64,
    fsync_flags: u32,
) -> SQE {
    SQE {
        opcode,
        flags: 0,
        fd,
        offset,
        buf_offset,
        len: n_bytes,
        fsync_flags,
        user_data: 0,
    }
}

impl SQE {
    /// A blank entry, ready to be prepared: a no-op on no file.
    pub fn new_uninit() -> (r: SQE)
        ensures
            r == prepared_sqe(Opcode::Nop, -1i32, 0, 0, 0, 0),
    {
        SQE {
            opcode: Opcode::Nop,
            flags: 0,
            fd: -1,
            offset: 0,
            buf_offset: 0,
            len: 0,
            fsync_flags: 0,
            user_data: 0,
        }
    }

    /// Prepare this entry as a no-op.
    pub fn prep_nop(&mut self)
        ensures
            *final(self) == prepared_sqe(Opcode::Nop, -1i32, 0, 0, 0, 0),
    {
        *self = SQE::new_uninit();
    }

    /// Prepare this entry as a positioned read of `n_bytes` into the tagged
    /// buffer at `buf_offset`, from file position `offset` of `fd`.
    pub fn prep_read(&mut self, fd: i32, buf_offset: usize, n_bytes: u32, offset: u64)
        ensures
            *final(self) == prepared_sqe(Opcode::Read, fd, buf_offset, n_bytes, offset, 0),
    {
        *self = SQE {
            opcode: Opcode::Read,
            flags: 0,
            fd,
            offset,
            buf_offset,
            len: n_bytes,
            fsync_flags: 0,
            user_data: 0,
        };
    }

    /// Prepare this entry as a positioned write of `n_bytes` out of the
    /// tagged buffer at `buf_offset`, to file position `offset` of `fd`.
    pub fn prep_write(&mut self, fd: i32, buf_offset: usize, n_bytes: u32, offset: u64)
        ensures
            *final(self) == prepared_sqe(Opcode::Write, fd, buf_offset, n_bytes, offset, 0),
    {
        *self = SQE {
            opcode: Opcode::Write,
            flags: 0,
            fd,
            offset,
            buf_offset,
            len: n_bytes,
            fsync_flags: 0,
            user_data: 0,
        };
    }

    /// Prepare this entry as a durability flush of `fd`.
    pub fn prep_fsync(&mut self, fd: i32, fsync_flags: u32)
        ensures
            *final(self) == prepared_sqe(Opcode::Fsync, fd, 0, 0, 0, fsync_flags),
    {
        *self = SQE {
            opcode: Opcode::Fsync,
            flags: 0,
            fd,
            offset: 0,
            buf_offset: 0,
            len: 0,
            fsync_flags,
            user_data: 0,
        };
    }

    /// Replace the submission flags.
    pub fn set_flags(&mut self, flags: u8)
        ensures
            *final(self) == (SQE { flags, ..*old(self) }),
    {
        self.flags = flags;
    }

    /// Merge submission flags into the ones already set.
    pub fn enable_flags(&mut self, flags: u8)
        ensures
            *final(self) == (SQE { flags: old(self).flags | flags, ..*old(self) }),
    {
        self.flags = self.flags | flags;
    }

    /// Stamp the correlation tag.
    pub fn set_user_data(&mut self, user_data: u64)
        ensures
            *final(self) == (SQE { user_data, ..*old(self) }),
    {
        self.user_data = user_data;
    }
}

} // verus!
