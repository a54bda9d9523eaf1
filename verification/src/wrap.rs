use vstd::prelude::*;
use crate::error::GridError;

verus! {

/// One wrap step on an axis of length `n`: a coordinate below zero moves up
/// by `n`, one at or above `n` moves down by `n`, any other stays.
///
/// This is a single step, not a remainder: it lands in `[0, n)` only from
/// less than one full axis length away.
pub open spec fn wrap_once(v: int, n: int) -> int {
    if v < 0 {
        v + n
    } else if v >= n {
        v - n
    } else {
        v
    }
}

/// Whether one wrap step brings `v` onto the axis `[0, n)`.
pub open spec fn wraps(v: int, n: int) -> bool {
    0 <= wrap_once(v, n) < n
}

/// Wraps the coordinate `pos` onto an axis of length `range` by one step.
///
/// Succeeds exactly if the step lands on the axis, and then returns where it
/// lands.  A coordinate that is still off the axis after the step is refused,
/// never clamped.  The coordinate is taken wide enough to hold a one-cell
/// offset from any `isize` or `usize` position.
pub fn wrap(pos: i128, range: usize) -> (res: Result<usize, GridError>)
    ensures
        wraps(pos as int, range as int) ==> res == Ok::<usize, GridError>(
            wrap_once(pos as int, range as int) as usize,
        ),
        !wraps(pos as int, range as int) ==> res == Err::<usize, GridError>(
            GridError::IndexOutOfRange,
        ),
{
    let span: i128 = range as i128;
    let stepped: i128 = if pos < 0 {
        pos + span
    } else if pos >= span {
        pos - span
    } else {
        pos
    };
    if 0 <= stepped && stepped < span {
        Ok(stepped as usize)
    } else {
        Err(GridError::IndexOutOfRange)
    }
}

} // verus!
