//! The ways in which a render can fail.

use vstd::prelude::*;

verus! {

/// The terminal outcome of a render that produced no drawing.
#[derive(Clone, Copy, Debug, PartialEq, Eq, Structural)]
pub enum ChartError {
    /// The row at this index is shorter than the column layout asks for, or
    /// its count field is not the text of a count.
    MalformedRow { row: usize },
    /// Adding the count of the row at this index would carry the total of its
    /// category past `u32::MAX`.
    TotalOverflow { row: usize },
    /// The drawing surface has no width or no height.
    DegenerateSurface,
}

} // verus!
