//! Line and column positions in source text.
use vstd::prelude::*;

verus! {

/// A one-based line/column position in source text.
#[derive(Debug, Clone, Copy, PartialEq, Eq, Structural)]
pub struct Location {
    pub line: usize,
    pub column: usize,
}

impl Location {
    pub fn new(line: usize, column: usize) -> (r: Location)
        ensures
            r.line == line,
            r.column == column,
    {
        Location { line, column }
    }

    pub fn line(&self) -> (r: usize)
        ensures
            r == self.line,
    {
        self.line
    }

    pub fn column(&self) -> (r: usize)
        ensures
            r == self.column,
    {
        self.column
    }

    /// Moves one column to the right; the column saturates at `usize::MAX`.
    pub fn right(&mut self)
        ensures
            final(self).line == old(self).line,
            final(self).column == if old(self).column < usize::MAX {
                old(self).column + 1
            } else {
                old(self).column as int
            },
    {
        if self.column < usize::MAX {
            self.column = self.column + 1;
        }
    }

    /// Moves to the next line; the line saturates at `usize::MAX`.
    pub fn new_line(&mut self)
        ensures
            final(self).column == old(self).column,
            final(self).line == if old(self).line < usize::MAX {
                old(self).line + 1
            } else {
                old(self).line as int
            },
    {
        if self.line < usize::MAX {
            self.line = self.line + 1;
        }
    }

    /// Goes back to the start of the text: line 1, column 1.
    pub fn reset(&mut self)
        ensures
            final(self).line == 1,
            final(self).column == 1,
    {
        self.line = 1;
        self.column = 1;
    }
}

impl Default for Location {
    fn default() -> (r: Location)
        ensures
            r.line == 1,
            r.column == 1,
    {
        Location { line: 1, column: 1 }
    }
}

} // verus!
