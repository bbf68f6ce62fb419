//! Selections in view coordinates.

use vstd::prelude::*;

verus! {

/// A position in view coordinates: a view line, a column, and the source byte
/// the cell maps to, when one is known.
#[derive(Debug, Clone, Copy)]
pub struct ViewPosition {
    pub view_line: usize,
    pub column: usize,
    pub source_byte: Option<usize>,
}

/// Ordering of view positions: by view line, then column, then source byte,
/// an absent source byte before any present one.
pub open spec fn spec_pos_le(a: ViewPosition, b: ViewPosition) -> bool {
    if a.view_line != b.view_line {
        a.view_line < b.view_line
    } else if a.column != b.column {
        a.column < b.column
    } else {
        match (a.source_byte, b.source_byte) {
            (None, _) => true,
            (Some(_), None) => false,
            (Some(x), Some(y)) => x <= y,
        }
    }
}

/// Equality of view positions, field by field.
pub open spec fn spec_pos_eq(a: ViewPosition, b: ViewPosition) -> bool {
    a.view_line == b.view_line && a.column == b.column && a.source_byte == b.source_byte
}

/// Whether `a` comes at or before `b` in view order.
pub fn pos_le(a: &ViewPosition, b: &ViewPosition) -> (r: bool)
    ensures
        r == spec_pos_le(*a, *b),
{
    if a.view_line != b.view_line {
        a.view_line < b.view_line
    } else if a.column != b.column {
        a.column < b.column
    } else {
        match (a.source_byte, b.source_byte) {
            (None, _) => true,
            (Some(_), None) => false,
            (Some(x), Some(y)) => x <= y,
        }
    }
}

/// Whether two view positions coincide.
pub fn pos_eq(a: &ViewPosition, b: &ViewPosition) -> (r: bool)
    ensures
        r == spec_pos_eq(*a, *b),
{
    a.view_line == b.view_line && a.column == b.column && (match (a.source_byte, b.source_byte) {
        (None, None) => true,
        (Some(x), Some(y)) => x == y,
        _ => false,
    })
}

/// A selection in view coordinates: a start and an end position, in either
/// order.
#[derive(Debug, Clone, Copy)]
pub struct Selection {
    pub start: ViewPosition,
    pub end: ViewPosition,
}

impl Selection {
    /// A selection from `start` to `end`.
    pub fn new(start: ViewPosition, end: ViewPosition) -> (r: Selection)
        ensures
            r.start == start,
            r.end == end,
    {
        Selection { start, end }
    }

    /// A selection from a pair of positions.
    pub fn from_tuple(tuple: (ViewPosition, ViewPosition)) -> (r: Selection)
        ensures
            r.start == tuple.0,
            r.end == tuple.1,
    {
        Selection { start: tuple.0, end: tuple.1 }
    }

    /// The selection as a pair of positions.
    pub fn to_tuple(self) -> (r: (ViewPosition, ViewPosition))
        ensures
            r.0 == self.start,
            r.1 == self.end,
    {
        (self.start, self.end)
    }

    /// The same selection with its ends ordered: the result's start comes at
    /// or before its end, and the ends are those of the original.
    pub fn normalized(&self) -> (r: Selection)
        ensures
            spec_pos_le(r.start, r.end),
            spec_pos_le(self.start, self.end) ==> r.start == self.start && r.end == self.end,
            !spec_pos_le(self.start, self.end) ==> r.start == self.end && r.end == self.start,
    {
        if pos_le(&self.start, &self.end) {
            *self
        } else {
            Selection { start: self.end, end: self.start }
        }
    }

    /// Whether the selection selects nothing: its ends coincide.
    pub fn is_empty(&self) -> (r: bool)
        ensures
            r == spec_pos_eq(self.start, self.end),
    {
        pos_eq(&self.start, &self.end)
    }

    /// The selection's length in view cells: the column span on one line, and
    /// an estimate of eighty columns per line across lines.
    pub fn len(&self) -> (r: usize)
        requires
            self.start.view_line < self.end.view_line ==> (self.end.view_line
                - self.start.view_line) * 80 + self.end.column <= usize::MAX,
        ensures
            self.start.view_line == self.end.view_line ==> r == (if self.end.column
                > self.start.column {
                self.end.column - self.start.column
            } else {
                0
            }),
            self.start.view_line != self.end.view_line ==> r == (if self.end.view_line
                > self.start.view_line {
                (self.end.view_line - self.start.view_line) * 80 + self.end.column
            } else {
                self.end.column as int
            }),
    {
        if self.start.view_line == self.end.view_line {
            if self.end.column > self.start.column {
                self.end.column - self.start.column
            } else {
                0
            }
        } else {
            let line_diff = if self.end.view_line > self.start.view_line {
                self.end.view_line - self.start.view_line
            } else {
                0
            };
            line_diff * 80 + self.end.column
        }
    }
}

} // verus!
