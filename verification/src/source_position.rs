//! Positions in a source text.

use vstd::prelude::*;

verus! {

/// A 1-based line and column in a source text.
#[derive(Debug, Clone, Copy, PartialEq, Eq, Structural)]
pub struct SourcePosition {
    pub line: usize,
    pub column: usize,
}

impl SourcePosition {
    /// The position of the first character of a text: line 1, column 1.
    pub fn zero() -> (p: Self)
        ensures
            p.line == 1,
            p.column == 1,
    {
        Self { line: 1, column: 1 }
    }

    pub fn new(line: usize, column: usize) -> (p: Self)
        ensures
            p.line == line,
            p.column == column,
    {
        Self { line, column }
    }

    /// The position after reading `c` at `self`: a line feed starts a new line, any other
    /// character takes one column.
    pub open spec fn after(self, c: char) -> SourcePosition {
        if c == '\n' {
            SourcePosition { line: (self.line + 1) as usize, column: 1 }
        } else {
            SourcePosition { line: self.line, column: (self.column + 1) as usize }
        }
    }

    /// The position after reading all of `s` from `self` on.
    pub open spec fn after_all(self, s: Seq<char>) -> SourcePosition
        decreases s.len(),
    {
        if s.len() == 0 {
            self
        } else {
            self.after_all(s.drop_last()).after(s.last())
        }
    }

    /// Whether `n` more characters can be read from `self` on with every line and column
    /// number still a `usize`.
    pub open spec fn has_room(self, n: int) -> bool {
        self.line + n <= usize::MAX && self.column + n <= usize::MAX
    }

    /// The position after reading `c` at `self`.
    pub fn step(self, c: char) -> (p: Self)
        requires
            self.has_room(1),
        ensures
            p == self.after(c),
            forall|n: int| n >= 1 && self.has_room(n) ==> p.has_room(n - 1),
    {
        if c == '\n' {
            Self { line: self.line + 1, column: 1 }
        } else {
            Self { line: self.line, column: self.column + 1 }
        }
    }
}

} // verus!
