//! The closed set of actions the editor core consumes: edits, cursor
//! moves, and system commands. An input decoder maps platform events onto
//! these; the core never sees raw events.
use vstd::prelude::*;

use crate::types::Size;

verus! {

/// A text edit at the cursor.
#[derive(Copy, Clone, PartialEq, Eq, Structural, Debug)]
pub enum Edit {
    Insert(char),
    Delete,
    DeleteBackward,
    InsertNewline,
}

/// A cursor movement.
#[derive(Copy, Clone, PartialEq, Eq, Structural, Debug)]
pub enum Move {
    PageUp,
    PageDown,
    StartOfLine,
    EndOfLine,
    Up,
    Left,
    Right,
    Down,
}

/// A command to the editor as a whole.
#[derive(Copy, Clone, PartialEq, Eq, Structural, Debug)]
pub enum System {
    Save,
    Resize(Size),
    Quit,
    Dismiss,
    Search,
}

/// Any command the editor consumes. A decoder tries the categories in
/// order — edit, then move, then system — and a window resize is always
/// decodable regardless of category.
#[derive(Copy, Clone, PartialEq, Eq, Structural, Debug)]
pub enum Command {
    Move(Move),
    Edit(Edit),
    System(System),
}

} // verus!
