//! Mapping between view positions and source bytes.
//!
//! A layout records, for each view line, the source byte each column maps to.

use vstd::prelude::*;
use crate::selection::ViewPosition;

verus! {

/// The mapping a laid-out view establishes: `rows[l][c]` is the source byte
/// shown at view line `l`, column `c`.
pub struct Layout {
    rows: Vec<Vec<usize>>,
}

/// The source byte at a view cell, if the cell exists.
pub open spec fn spec_cell(rows: Seq<Vec<usize>>, line: int, col: int) -> Option<usize> {
    if 0 <= line < rows.len() && 0 <= col < rows[line]@.len() {
        Some(rows[line]@[col])
    } else {
        None
    }
}

/// The first view cell showing a source byte, scanning lines top to bottom
/// and columns left to right.
pub open spec fn spec_find_byte(rows: Seq<Vec<usize>>, byte: usize, line: int) -> Option<
    (int, int),
>
    decreases rows.len() - line,
{
    if line < 0 || line >= rows.len() {
        None
    } else {
        match spec_find_byte_in_row(rows[line]@, byte, 0) {
            Some(col) => Some((line, col)),
            None => spec_find_byte(rows, byte, line + 1),
        }
    }
}

/// The first column of a row showing a source byte.
pub open spec fn spec_find_byte_in_row(row: Seq<usize>, byte: usize, col: int) -> Option<int>
    decreases row.len() - col,
{
    if col < 0 || col >= row.len() {
        None
    } else if row[col] == byte {
        Some(col)
    } else {
        spec_find_byte_in_row(row, byte, col + 1)
    }
}

impl View for Layout {
    type V = Seq<Vec<usize>>;

    closed spec fn view(&self) -> Seq<Vec<usize>> {
        self.rows@
    }
}

impl Layout {
    /// A layout from its per-line source byte rows.
    pub fn new(rows: Vec<Vec<usize>>) -> (r: Layout)
        ensures
            r@ == rows@,
    {
        Layout { rows }
    }

    /// The source byte shown at a view cell, if the cell exists.
    pub fn view_position_to_source_byte(&self, view_line: usize, column: usize) -> (r: Option<
        usize,
    >)
        ensures
            r == spec_cell(self@, view_line as int, column as int),
    {
        if view_line < self.rows.len() {
            let row = &self.rows[view_line];
            if column < row.len() {
                return Some(row[column]);
            }
        }
        None
    }

    /// The first view cell showing a source byte, if any.
    pub fn source_byte_to_view_position(&self, byte: usize) -> (r: Option<(usize, usize)>)
        ensures
            match r {
                Some((l, c)) => spec_find_byte(self@, byte, 0) == Some((l as int, c as int)),
                None => spec_find_byte(self@, byte, 0) is None,
            },
    {
        let n = self.rows.len();
        let mut line: usize = 0;
        while line < n
            invariant
                0 <= line <= n,
                n == self@.len(),
                spec_find_byte(self@, byte, 0) == spec_find_byte(self@, byte, line as int),
            decreases n - line,
        {
            let row = &self.rows[line];
            let m = row.len();
            let mut col: usize = 0;
            while col < m
                invariant
                    0 <= col <= m,
                    m == row@.len(),
                    0 <= line < self@.len(),
                    row == &self@[line as int],
                    spec_find_byte(self@, byte, 0) == spec_find_byte(self@, byte, line as int),
                    spec_find_byte_in_row(row@, byte, 0) == spec_find_byte_in_row(
                        row@,
                        byte,
                        col as int,
                    ),
                decreases m - col,
            {
                if row[col] == byte {
                    return Some((line, col));
                }
                col += 1;
            }
            line += 1;
        }
        None
    }
}

/// The source byte a view position maps to, if the laid-out view shows one
/// there.
pub fn view_pos_to_source(layout: &Layout, pos: &ViewPosition) -> (r: Option<usize>)
    ensures
        r == spec_cell(layout@, pos.view_line as int, pos.column as int),
{
    layout.view_position_to_source_byte(pos.view_line, pos.column)
}

/// The view position nearest a source byte: the first cell showing the byte,
/// or the view origin when none does, with the column replaced by the
/// preferred one where given. The position remembers the source byte.
pub fn source_to_view_pos(layout: &Layout, source_byte: usize, preferred_col: Option<usize>) -> (r:
    ViewPosition)
    ensures
        r.source_byte == Some(source_byte),
        ({
            let found = spec_find_byte(layout@, source_byte, 0);
            match preferred_col {
                Some(pc) => r.column == pc && (match found {
                    Some((l, _)) => r.view_line == l,
                    None => r.view_line == 0,
                }),
                None => (match found {
                    Some((l, c)) => r.view_line == l && r.column == c,
                    None => r.view_line == 0 && r.column == 0,
                }),
            }
        }),
{
    let (line, col) = match layout.source_byte_to_view_position(source_byte) {
        Some(lc) => lc,
        None => (0, 0),
    };
    let col = match preferred_col {
        Some(pc) => pc,
        None => col,
    };
    ViewPosition { view_line: line, column: col, source_byte: Some(source_byte) }
}

} // verus!
