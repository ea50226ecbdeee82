//! Positions in a document.
use vstd::prelude::*;

verus! {

/// Zero-based text position in document coordinates.
#[derive(Debug, Clone, Copy, PartialEq, Eq, Structural)]
pub struct Position {
    pub line: usize,
    pub column: usize,
}

/// A position in mathematical integers.
pub struct Pos {
    pub line: int,
    pub column: int,
}

impl View for Position {
    type V = Pos;

    open spec fn view(&self) -> Pos {
        Pos { line: self.line as int, column: self.column as int }
    }
}

/// Reading order: by line, then by column.
pub open spec fn not_after(a: Pos, b: Pos) -> bool {
    a.line < b.line || (a.line == b.line && a.column <= b.column)
}

/// The start of a document.
pub open spec fn start_pos() -> Pos {
    Pos { line: 0, column: 0 }
}

impl Position {
    /// The position at a line and column.
    pub fn new(line: usize, column: usize) -> (out: Self)
        ensures
            out.line == line,
            out.column == column,
    {
        Position { line, column }
    }

    /// The start of a document.
    pub fn origin() -> (out: Self)
        ensures
            out@ == start_pos(),
    {
        Position::new(0, 0)
    }
}

impl Default for Position {
    fn default() -> (out: Self)
        ensures
            out@ == start_pos(),
    {
        Position::origin()
    }
}

} // verus!
