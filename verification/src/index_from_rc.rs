use vstd::prelude::*;

verus! {

/// The position of cell `(row, column)` in a flat row-major array whose
/// rows are `stride` cells wide.
pub fn index_from_rc(row: usize, column: usize, stride: usize) -> (r: usize)
    requires
        row * stride + column <= usize::MAX,
    ensures
        r == row * stride + column,
{
    row * stride + column
}

} // verus!
