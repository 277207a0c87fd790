//! Why a universe turns a request down.

use vstd::prelude::*;

verus! {

/// The reason a request was turned down; the universe is then left as it was.
#[derive(Debug, Clone, Copy, PartialEq, Eq, Structural)]
pub enum UniverseError {
    /// A width or a height of zero was asked for.
    ZeroDimension,
    /// The grid asked for has more cells than a 32-bit index can tell apart.
    TooLarge,
    /// A row or a column lies outside the grid.
    OutOfRange,
    /// The number of flags handed in is not the number of cells.
    LengthMismatch,
}

} // verus!
