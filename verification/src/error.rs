use vstd::prelude::*;

verus! {

/// What the grid refuses.
#[derive(Clone, Copy, Debug, PartialEq, Eq, Structural)]
pub enum GridError {
    /// A grid was asked for with no columns or no rows, or with a cell
    /// sequence whose length is not `cols * rows`.
    InvalidDimensions,
    /// A coordinate does not name a cell: it lies outside the grid for a
    /// directly addressed operation, or more than one full dimension away
    /// from it for a wrapped one.
    IndexOutOfRange,
}

} // verus!
