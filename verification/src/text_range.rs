//! Line/column points and ranges over a text buffer.
//!
//! A `TextPoint` addresses a position between characters: `line` is the
//! zero-based line index and `col` the number of characters from the start of
//! that line. A `TextRange` is a pair of points; a range whose endpoints
//! coincide is a *cursor*.

use vstd::prelude::*;

verus! {

/// A line/column position in a text buffer, counted in characters.
#[derive(Clone, Copy, PartialEq, Eq, Structural, Debug)]
pub struct TextPoint {
    pub line: usize,
    pub col: usize,
}

impl TextPoint {
    pub fn new(line: usize, col: usize) -> (p: TextPoint)
        ensures
            p.line == line && p.col == col,
    {
        TextPoint { line, col }
    }

    /// The origin, line 0 and column 0.
    pub fn zero() -> (p: TextPoint)
        ensures
            p.line == 0 && p.col == 0,
    {
        TextPoint { line: 0, col: 0 }
    }

    /// `self` comes no later than `other` in document order.
    pub open spec fn spec_le(self, other: TextPoint) -> bool {
        self.line < other.line || (self.line == other.line && self.col <= other.col)
    }

    /// Document-order comparison: first by line, then by column.
    pub fn is_before_or_at(&self, other: &TextPoint) -> (r: bool)
        ensures
            r == self.spec_le(*other),
    {
        self.line < other.line || (self.line == other.line && self.col <= other.col)
    }
}

/// A span between two points of the buffer. The endpoints need not be
/// ordered; `ordered` returns the canonical form.
#[derive(Clone, Copy, PartialEq, Eq, Structural, Debug)]
pub struct TextRange {
    pub start: TextPoint,
    pub end: TextPoint,
}

impl TextRange {
    pub fn new(start: TextPoint, end: TextPoint) -> (r: TextRange)
        ensures
            r.start == start && r.end == end,
    {
        TextRange { start, end }
    }

    /// A cursor: a range whose two endpoints are the same point.
    pub fn new_cursor(p: TextPoint) -> (r: TextRange)
        ensures
            r.start == p && r.end == p,
    {
        TextRange { start: p, end: p }
    }

    /// The empty range at the origin.
    pub fn zero() -> (r: TextRange)
        ensures
            r.start.line == 0 && r.start.col == 0 && r.end.line == 0 && r.end.col == 0,
    {
        TextRange { start: TextPoint { line: 0, col: 0 }, end: TextPoint { line: 0, col: 0 } }
    }

    pub open spec fn spec_is_cursor(self) -> bool {
        self.start == self.end
    }

    pub fn is_cursor(&self) -> (r: bool)
        ensures
            r == self.spec_is_cursor(),
    {
        self.start.line == self.end.line && self.start.col == self.end.col
    }

    /// The canonical form of `self`, with `start` no later than `end`.
    pub open spec fn spec_ordered(self) -> TextRange {
        if self.start.spec_le(self.end) {
            self
        } else {
            TextRange { start: self.end, end: self.start }
        }
    }

    /// Returns this range with its endpoints swapped if they were reversed,
    /// so that `start` comes no later than `end` in document order.
    pub fn ordered(&self) -> (r: TextRange)
        ensures
            r == self.spec_ordered(),
            r.start.spec_le(r.end),
    {
        if self.start.is_before_or_at(&self.end) {
            *self
        } else {
            TextRange { start: self.end, end: self.start }
        }
    }
}

} // verus!
