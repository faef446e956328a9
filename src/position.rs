//! Screen coordinates and sizes.
use vstd::prelude::*;

verus! {

/// A row and a column.
#[derive(Clone, Copy, Debug, PartialEq, Eq, Structural)]
pub struct Position {
    pub row: usize,
    pub col: usize,
}

impl Position {
    /// The position relative to `other`, each coordinate at least zero.
    pub fn saturating_sub(&self, other: &Position) -> (r: Position)
        ensures
            r.row == if self.row >= other.row {
                self.row - other.row
            } else {
                0
            },
            r.col == if self.col >= other.col {
                self.col - other.col
            } else {
                0
            },
    {
        Position { row: self.row.saturating_sub(other.row), col: self.col.saturating_sub(other.col) }
    }
}

impl Default for Position {
    fn default() -> (r: Position)
        ensures
            r == (Position { row: 0, col: 0 }),
    {
        Position { row: 0, col: 0 }
    }
}

/// A number of rows and of columns.
#[derive(Clone, Copy, Debug, PartialEq, Eq, Structural)]
pub struct Size {
    pub height: usize,
    pub width: usize,
}

impl Default for Size {
    fn default() -> (r: Size)
        ensures
            r == (Size { height: 0, width: 0 }),
    {
        Size { height: 0, width: 0 }
    }
}

} // verus!
