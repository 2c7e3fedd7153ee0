//! Shared coordinate types: document locations (line + grapheme) and
//! screen positions (row + column), plus the window size.
use vstd::prelude::*;

verus! {

/// Index of a grapheme cluster within a line.
pub type GraphemeIdx = usize;

/// Index of a line within a document.
pub type LineIdx = usize;

/// Index of a Unicode scalar value (a `char`) within a line's text.
pub type CharIdx = usize;

/// A rendered terminal column.
pub type ColIdx = usize;

/// A rendered terminal row.
pub type RowIdx = usize;

/// A position in the document: which line, and which grapheme cluster
/// within that line.
#[derive(Copy, Clone, PartialEq, Eq, Structural, Debug)]
pub struct Location {
    pub grapheme_index: GraphemeIdx,
    pub line_index: LineIdx,
}

/// A screen-space position: a row and a column.
#[derive(Copy, Clone, PartialEq, Eq, Structural, Debug)]
pub struct Position {
    pub col: ColIdx,
    pub row: RowIdx,
}

impl Position {
    /// Component-wise subtraction that stops at zero instead of wrapping.
    pub fn saturating_sub(self, other: Self) -> (r: Self)
        ensures
            r.row == if self.row >= other.row {
                self.row - other.row
            } else {
                0
            },
            r.col == if self.col >= other.col {
                self.col - other.col
            } else {
                0
            },
    {
        Position {
            row: if self.row >= other.row {
                self.row - other.row
            } else {
                0
            },
            col: if self.col >= other.col {
                self.col - other.col
            } else {
                0
            },
        }
    }
}

/// The size of the visible window: a height and a width, in terminal cells.
#[derive(Copy, Clone, PartialEq, Eq, Structural, Debug)]
pub struct Size {
    pub height: usize,
    pub width: usize,
}

} // verus!
