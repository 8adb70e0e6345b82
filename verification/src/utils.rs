//! Interpretation of raw kernel-style result codes.

use vstd::prelude::*;

verus! {

/// Turns a raw result code into a `Result`: a non-negative code is the
/// number of bytes transferred (or a success indicator), a negative code
/// `-e` stands for the OS error number `e`, which is returned as `Err(e)`.
///
/// `i32::MIN` is excluded: it is not a meaningful negated error number and
/// its negation does not fit in an `i32`.
pub fn resultify(x: i32) -> (r: Result<u32, i32>)
    requires
        x != i32::MIN,
    ensures
        x >= 0 ==> r == Result::<u32, i32>::Ok(x as u32),
        x < 0 ==> r == Result::<u32, i32>::Err((-x) as i32),
{
    if x >= 0 {
        Ok(x as u32)
    } else {
        Err(-x)
    }
}

} // verus!
