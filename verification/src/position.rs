//! Places in a source text.

use vstd::prelude::*;
use vstd::string::StringExecFns;
use crate::text::{dec_text, usize_to_string};

verus! {

/// A line and a column of the source text.
#[derive(Clone, Copy, Debug, PartialEq, Eq, Structural)]
pub struct Position {
    pub line: usize,
    pub col: usize,
}

impl Position {
    /// The text of a position: line, a colon, column.
    pub open spec fn text(self) -> Seq<char> {
        dec_text(self.line as nat) + ":"@ + dec_text(self.col as nat)
    }

    /// The place at a line and a column.
    pub fn new(line: usize, col: usize) -> (r: Position)
        ensures
            r == (Position { line, col }),
    {
        Position { line, col }
    }

    /// Renders the position as `line:col`.
    pub fn to_string(&self) -> (r: String)
        ensures
            r@ == self.text(),
    {
        let mut out = usize_to_string(self.line);
        out.append(":");
        let col = usize_to_string(self.col);
        out.append(col.as_str());
        out
    }
}

} // verus!
