use vstd::prelude::*;

verus! {

/// A placed value together with the grid coordinates it occupies.
#[derive(Clone, Debug, PartialEq)]
pub struct Token<T> {
    pub row: i32,
    pub column: i32,
    pub value: T,
}

impl<T> Token<T> {
    pub fn new(row: i32, column: i32, value: T) -> (r: Self)
        ensures
            r.row == row,
            r.column == column,
            r.value == value,
    {
        Self { row, column, value }
    }
}

} // verus!
