//! Windows: the runs of four cells in a line, in which games are won and by
//! which positions are scored.

use vstd::prelude::*;
use crate::board::Board;
use crate::cell::Cell;
use crate::grid::{at, on_board};

verus! {

/// The four directions in which a window runs from its first cell.
#[derive(Clone, Copy, PartialEq, Eq, Structural, Debug)]
pub enum Direction {
    /// To the right, within a row.
    Horizontal,
    /// Downwards, within a column.
    Vertical,
    /// Downwards and to the right.
    DiagonalDown,
    /// Upwards and to the right.
    DiagonalUp,
}

/// By how many rows a window of direction `dir` moves from one of its cells
/// to the next.
pub open spec fn row_step(dir: Direction) -> int {
    match dir {
        Direction::Horizontal => 0,
        Direction::Vertical => 1,
        Direction::DiagonalDown => 1,
        Direction::DiagonalUp => -1,
    }
}

/// By how many columns a window of direction `dir` moves from one of its
/// cells to the next.
pub open spec fn col_step(dir: Direction) -> int {
    match dir {
        Direction::Horizontal => 1,
        Direction::Vertical => 0,
        Direction::DiagonalDown => 1,
        Direction::DiagonalUp => 1,
    }
}

/// The window of direction `dir` that starts at `(row, col)` lies on the
/// board: its first and its last cell do.
pub open spec fn window_fits(dir: Direction, row: int, col: int) -> bool {
    on_board(row, col) && on_board(row + 3 * row_step(dir), col + 3 * col_step(dir))
}

/// Cell number `k` (0 to 3) of the window of direction `dir` that starts at
/// `(row, col)`.
pub open spec fn window_cell(cells: Seq<Cell>, dir: Direction, row: int, col: int, k: int) -> Cell {
    at(cells, row + k * row_step(dir), col + k * col_step(dir))
}

/// Four cells hold pieces of one side.
pub open spec fn four_alike(a: Cell, b: Cell, c: Cell, d: Cell) -> bool {
    a != Cell::Empty && a == b && a == c && a == d
}

/// The window of direction `dir` that starts at `(row, col)` holds four
/// pieces of one side.
pub open spec fn line_at(cells: Seq<Cell>, dir: Direction, row: int, col: int) -> bool {
    four_alike(
        window_cell(cells, dir, row, col, 0),
        window_cell(cells, dir, row, col, 1),
        window_cell(cells, dir, row, col, 2),
        window_cell(cells, dir, row, col, 3),
    )
}

/// Where windows start: horizontal ones in every row and in the columns 0 to
/// 3, vertical ones in the rows 0 to 2 and in every column, those that run
/// down to the right in the rows 0 to 2 and the columns 0 to 3, those that
/// run up to the right in the rows 3 to 5 and the columns 0 to 3.
pub proof fn lemma_window_starts(row: int, col: int)
    ensures
        window_fits(Direction::Horizontal, row, col) <==> 0 <= row < 6 && 0 <= col < 4,
        window_fits(Direction::Vertical, row, col) <==> 0 <= row < 3 && 0 <= col < 7,
        window_fits(Direction::DiagonalDown, row, col) <==> 0 <= row < 3 && 0 <= col < 4,
        window_fits(Direction::DiagonalUp, row, col) <==> 3 <= row < 6 && 0 <= col < 4,
{
}

impl Direction {
    /// Whether the window of this direction that starts at `(row, col)` lies
    /// on the board.
    pub fn fits(self, row: usize, col: usize) -> (fits: bool)
        ensures
            fits == window_fits(self, row as int, col as int),
    {
        match self {
            Direction::Horizontal => row < 6 && col < 4,
            Direction::Vertical => row < 3 && col < 7,
            Direction::DiagonalDown => row < 3 && col < 4,
            Direction::DiagonalUp => 3 <= row && row < 6 && col < 4,
        }
    }
}

impl Board {
    /// The four cells of the window of direction `dir` that starts at
    /// `(row, col)`, from its first cell on.
    pub(crate) fn window(&self, dir: Direction, row: usize, col: usize) -> (cells: (Cell, Cell, Cell, Cell))
        requires
            window_fits(dir, row as int, col as int),
        ensures
            cells.0 == window_cell(self@, dir, row as int, col as int, 0),
            cells.1 == window_cell(self@, dir, row as int, col as int, 1),
            cells.2 == window_cell(self@, dir, row as int, col as int, 2),
            cells.3 == window_cell(self@, dir, row as int, col as int, 3),
    {
        match dir {
            Direction::Horizontal => (
                self.cell(row, col),
                self.cell(row, col + 1),
                self.cell(row, col + 2),
                self.cell(row, col + 3),
            ),
            Direction::Vertical => (
                self.cell(row, col),
                self.cell(row + 1, col),
                self.cell(row + 2, col),
                self.cell(row + 3, col),
            ),
            Direction::DiagonalDown => (
                self.cell(row, col),
                self.cell(row + 1, col + 1),
                self.cell(row + 2, col + 2),
                self.cell(row + 3, col + 3),
            ),
            Direction::DiagonalUp => (
                self.cell(row, col),
                self.cell(row - 1, col + 1),
                self.cell(row - 2, col + 2),
                self.cell(row - 3, col + 3),
            ),
        }
    }
}

} // verus!
