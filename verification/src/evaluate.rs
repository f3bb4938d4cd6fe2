//! The heuristic evaluation of a position: every window on the board is
//! scored by itself, and the scores are added up. A positive score favours
//! `X`, a negative one `O`.

use vstd::prelude::*;
use crate::board::Board;
use crate::cell::Cell;
use crate::grid::{column_open, drop_cells, lemma_drop_then_undo, undo_cells, valid_grid};
use crate::window::{Direction, window_cell, window_fits};

verus! {

/// What a window with four pieces of one side is worth to that side.
pub const FOUR_VALUE: i32 = 1000;

/// What a window with three pieces of one side and one empty cell is worth
/// to that side.
pub const THREE_VALUE: i32 = 5;

/// What a window with two pieces of one side and two empty cells is worth to
/// that side.
pub const TWO_VALUE: i32 = 2;

/// No position scores above this or below its negative: there are 69
/// windows on the board.
pub const SCORE_LIMIT: i32 = 69000;

/// How many of the four cells hold `what`.
pub open spec fn occurrences(what: Cell, a: Cell, b: Cell, c: Cell, d: Cell) -> int {
    (if a == what { 1int } else { 0 }) + (if b == what { 1int } else { 0 }) + (if c == what { 1int } else { 0 }) + (if d
        == what { 1int } else { 0 })
}

/// What a window is worth to a side that has `own` pieces in it, beside
/// `empty` empty cells.
pub open spec fn side_value(own: int, empty: int) -> int {
    if own == 4 {
        1000
    } else if own == 3 && empty == 1 {
        5
    } else if own == 2 && empty == 2 {
        2
    } else {
        0
    }
}

/// The score of a window: what it is worth to `X`, less what it is worth to
/// `O`.
pub open spec fn window_value(a: Cell, b: Cell, c: Cell, d: Cell) -> int {
    side_value(occurrences(Cell::PlayerX, a, b, c, d), occurrences(Cell::Empty, a, b, c, d))
        - side_value(occurrences(Cell::PlayerO, a, b, c, d), occurrences(Cell::Empty, a, b, c, d))
}

/// The score of the window of direction `dir` that starts at `(row, col)`;
/// 0 where no such window lies on the board.
pub open spec fn value_at(cells: Seq<Cell>, dir: Direction, row: int, col: int) -> int {
    if window_fits(dir, row, col) {
        window_value(
            window_cell(cells, dir, row, col, 0),
            window_cell(cells, dir, row, col, 1),
            window_cell(cells, dir, row, col, 2),
            window_cell(cells, dir, row, col, 3),
        )
    } else {
        0
    }
}

/// The scores of the windows of direction `dir` that start in `row`, in a
/// column left of `cols`, added up.
pub open spec fn row_sum(cells: Seq<Cell>, dir: Direction, row: int, cols: int) -> int
    decreases cols,
{
    if cols <= 0 {
        0
    } else {
        row_sum(cells, dir, row, cols - 1) + value_at(cells, dir, row, cols - 1)
    }
}

/// The scores of the windows of direction `dir` that start in a row above
/// `rows`, added up.
pub open spec fn rows_sum(cells: Seq<Cell>, dir: Direction, rows: int) -> int
    decreases rows,
{
    if rows <= 0 {
        0
    } else {
        rows_sum(cells, dir, rows - 1) + row_sum(cells, dir, rows - 1, 7)
    }
}

/// The score of a position: the scores of all windows on the board, added
/// up.
pub open spec fn evaluate_cells(cells: Seq<Cell>) -> int {
    rows_sum(cells, Direction::Horizontal, 6) + rows_sum(cells, Direction::Vertical, 6) + rows_sum(
        cells,
        Direction::DiagonalDown,
        6,
    ) + rows_sum(cells, Direction::DiagonalUp, 6)
}

/// How many windows of direction `dir` start in `row`, in a column left of
/// `cols`.
pub open spec fn windows_in_row(dir: Direction, row: int, cols: int) -> int {
    if !window_fits(dir, row, 0) || cols <= 0 {
        0
    } else if dir == Direction::Vertical {
        if cols <= 7 {
            cols
        } else {
            7
        }
    } else {
        if cols <= 4 {
            cols
        } else {
            4
        }
    }
}

/// How many windows of direction `dir` start in a row above `rows`.
pub open spec fn windows_above(dir: Direction, rows: int) -> int
    decreases rows,
{
    if rows <= 0 {
        0
    } else {
        windows_above(dir, rows - 1) + windows_in_row(dir, rows - 1, 7)
    }
}

/// A row's windows score within 1000 apiece.
pub proof fn lemma_row_sum_bound(cells: Seq<Cell>, dir: Direction, row: int, cols: int)
    requires
        0 <= cols <= 7,
    ensures
        -1000 * windows_in_row(dir, row, cols) <= row_sum(cells, dir, row, cols) <= 1000
            * windows_in_row(dir, row, cols),
    decreases cols,
{
    if cols > 0 {
        lemma_row_sum_bound(cells, dir, row, cols - 1);
    }
}

/// The windows above a row score within 1000 apiece.
pub proof fn lemma_rows_sum_bound(cells: Seq<Cell>, dir: Direction, rows: int)
    requires
        0 <= rows <= 6,
    ensures
        -1000 * windows_above(dir, rows) <= rows_sum(cells, dir, rows) <= 1000 * windows_above(
            dir,
            rows,
        ),
        0 <= windows_above(dir, rows) <= 7 * rows,
    decreases rows,
{
    if rows > 0 {
        lemma_rows_sum_bound(cells, dir, rows - 1);
        lemma_row_sum_bound(cells, dir, rows - 1, 7);
    }
}

/// There are 24 horizontal, 21 vertical and 12 windows of either diagonal
/// direction, 69 in all.
pub proof fn lemma_window_counts()
    ensures
        windows_above(Direction::Horizontal, 6) == 24,
        windows_above(Direction::Vertical, 6) == 21,
        windows_above(Direction::DiagonalDown, 6) == 12,
        windows_above(Direction::DiagonalUp, 6) == 12,
{
    reveal_with_fuel(windows_above, 7);
}

/// No position scores beyond 69 windows of 1000 each.
pub proof fn lemma_evaluate_bound(cells: Seq<Cell>)
    ensures
        -69000 <= evaluate_cells(cells) <= 69000,
{
    lemma_window_counts();
    lemma_rows_sum_bound(cells, Direction::Horizontal, 6);
    lemma_rows_sum_bound(cells, Direction::Vertical, 6);
    lemma_rows_sum_bound(cells, Direction::DiagonalDown, 6);
    lemma_rows_sum_bound(cells, Direction::DiagonalUp, 6);
}

/// The score is a function of the cells: whenever a position is scored, the
/// score is the same.
pub proof fn lemma_evaluate_deterministic(cells: Seq<Cell>, first: i32, second: i32)
    requires
        first == evaluate_cells(cells),
        second == evaluate_cells(cells),
    ensures
        first == second,
{
}

/// A piece that is dropped into an open column and taken off again leaves
/// the score as it was.
pub proof fn lemma_evaluate_after_drop_and_undo(cells: Seq<Cell>, col: int, piece: Cell)
    requires
        valid_grid(cells),
        column_open(cells, col),
        piece != Cell::Empty,
    ensures
        evaluate_cells(undo_cells(drop_cells(cells, col, piece), col)) == evaluate_cells(cells),
{
    lemma_drop_then_undo(cells, col, piece);
}

/// How many of four cells hold `what`.
fn count(what: Cell, a: Cell, b: Cell, c: Cell, d: Cell) -> (n: u8)
    ensures
        n == occurrences(what, a, b, c, d),
{
    let mut n: u8 = 0;
    if a == what {
        n += 1;
    }
    if b == what {
        n += 1;
    }
    if c == what {
        n += 1;
    }
    if d == what {
        n += 1;
    }
    n
}

/// What a window is worth to a side with `own` pieces in it, beside `empty`
/// empty cells.
fn value_for(own: u8, empty: u8) -> (value: i32)
    ensures
        value == side_value(own as int, empty as int),
{
    if own == 4 {
        FOUR_VALUE
    } else if own == 3 && empty == 1 {
        THREE_VALUE
    } else if own == 2 && empty == 2 {
        TWO_VALUE
    } else {
        0
    }
}

/// Scores one window of four cells: 1000 for four pieces of `X`, 5 for three
/// beside an empty cell, 2 for two beside two empty cells, the same with a
/// minus sign for `O`, and 0 for every other window.
pub fn score_window(a: Cell, b: Cell, c: Cell, d: Cell) -> (score: i32)
    ensures
        score == window_value(a, b, c, d),
        -1000 <= score <= 1000,
{
    let empty = count(Cell::Empty, a, b, c, d);
    let for_x = value_for(count(Cell::PlayerX, a, b, c, d), empty);
    let for_o = value_for(count(Cell::PlayerO, a, b, c, d), empty);
    for_x - for_o
}

impl Board {
    /// The scores of all windows of direction `dir`, added up.
    pub fn evaluate_direction(&self, dir: Direction) -> (score: i32)
        ensures
            score == rows_sum(self@, dir, 6),
    {
        let mut score: i32 = 0;
        let mut row: usize = 0;
        while row < 6
            invariant
                row <= 6,
                score == rows_sum(self@, dir, row as int),
            decreases 6 - row,
        {
            let mut col: usize = 0;
            let ghost above = score;
            while col < 7
                invariant
                    row < 6,
                    col <= 7,
                    above == rows_sum(self@, dir, row as int),
                    score == above + row_sum(self@, dir, row as int, col as int),
                decreases 7 - col,
            {
                proof {
                    lemma_rows_sum_bound(self@, dir, row as int);
                    lemma_row_sum_bound(self@, dir, row as int, col as int);
                }
                if dir.fits(row, col) {
                    let (a, b, c, d) = self.window(dir, row, col);
                    score = score + score_window(a, b, c, d);
                }
                col += 1;
            }
            row += 1;
        }
        score
    }

    /// The heuristic score of the position, from the point of view of `X`:
    /// the scores of all 69 windows, added up.
    pub fn evaluate(&self) -> (score: i32)
        ensures
            score == evaluate_cells(self@),
            -SCORE_LIMIT <= score <= SCORE_LIMIT,
    {
        proof {
            lemma_window_counts();
            lemma_rows_sum_bound(self@, Direction::Horizontal, 6);
            lemma_rows_sum_bound(self@, Direction::Vertical, 6);
            lemma_rows_sum_bound(self@, Direction::DiagonalDown, 6);
            lemma_rows_sum_bound(self@, Direction::DiagonalUp, 6);
        }
        let horizontal = self.evaluate_direction(Direction::Horizontal);
        let vertical = self.evaluate_direction(Direction::Vertical);
        let down = self.evaluate_direction(Direction::DiagonalDown);
        let up = self.evaluate_direction(Direction::DiagonalUp);
        horizontal + vertical + down + up
    }
}

} // verus!
