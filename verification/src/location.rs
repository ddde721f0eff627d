//! Positions in source text.
use vstd::prelude::*;

verus! {

/// A position in source text: both numbers count from one.
#[derive(Clone, Copy, Debug, Default, PartialEq, Eq)]
pub struct Location {
    pub row: usize,
    pub column: usize,
}

impl Location {
    pub fn new(row: usize, column: usize) -> (location: Location)
        ensures
            location == (Location { row, column }),
    {
        Location { row, column }
    }

    pub fn get_row(&self) -> (row: usize)
        ensures
            row == self.row,
    {
        self.row
    }

    pub fn get_column(&self) -> (column: usize)
        ensures
            column == self.column,
    {
        self.column
    }
}

} // verus!
