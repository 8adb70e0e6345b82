//! Completion queue entries: the result record the executor produces,
//! exactly once, for every accepted submission.

use crate::utils::resultify;
use vstd::prelude::*;

verus! {

/// A completion queue entry.
#[derive(Clone, Copy, PartialEq, Eq, Structural, Debug)]
pub struct CQE {
    /// The correlation tag of the submission this result answers.
    pub user_data: u64,
    /// Non-negative: bytes transferred (or a success indicator).
    /// Negative: the negated OS error number.
    pub res: i32,
    /// Result flags.
    pub flags: u32,
}

impl CQE {
    /// Build a completion record. Only an executor has reason to do this.
    pub fn new(user_data: u64, res: i32, flags: u32) -> (r: CQE)
        ensures
            r == (CQE { user_data, res, flags }),
    {
        CQE { user_data, res, flags }
    }

    /// The correlation tag.
    pub fn user_data(&self) -> (r: u64)
        ensures
            r == self.user_data,
    {
        self.user_data
    }

    /// The raw result flags.
    pub fn raw_flags(&self) -> (r: u32)
        ensures
            r == self.flags,
    {
        self.flags
    }

    /// The raw result code.
    pub fn raw_result(&self) -> (r: i32)
        ensures
            r == self.res,
    {
        self.res
    }

    /// The result code interpreted: bytes transferred on success, the OS
    /// error number on failure.
    pub fn io_result(&self) -> (r: Result<u32, i32>)
        requires
            self.res != i32::MIN,
        ensures
            self.res >= 0 ==> r == Result::<u32, i32>::Ok(self.res as u32),
            self.res < 0 ==> r == Result::<u32, i32>::Err((-self.res) as i32),
    {
        resultify(self.res)
    }

    /// Whether the result code reports an error.
    pub fn is_err(&self) -> (r: bool)
        ensures
            r == (self.res < 0),
    {
        self.res < 0
    }
}

} // verus!
