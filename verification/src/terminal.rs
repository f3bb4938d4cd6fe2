//! Detection of finished games: four in a line, or a full board.

use vstd::prelude::*;
use crate::board::Board;
use crate::cell::{Cell, Side, piece_of};
use crate::grid::{at, column_open, on_board};
use crate::window::{Direction, line_at, window_cell, window_fits};

verus! {

/// How a game stands.
#[derive(Clone, Copy, PartialEq, Eq, Structural, Debug)]
pub enum Outcome {
    /// Nobody has four in a line and there is still room on the board.
    InProgress,
    /// The side has four in a line.
    Win(Side),
    /// The board is full and nobody has four in a line.
    Draw,
}

/// Some window on the board holds four pieces of one side.
pub open spec fn has_line(cells: Seq<Cell>) -> bool {
    exists|dir: Direction, row: int, col: int|
        window_fits(dir, row, col) && #[trigger] line_at(cells, dir, row, col)
}

/// The window of direction `dir` that starts at `(row, col)` holds four
/// pieces of `side`.
pub open spec fn line_of_at(cells: Seq<Cell>, side: Side, dir: Direction, row: int, col: int) -> bool {
    forall|k: int| 0 <= k < 4 ==> #[trigger] window_cell(cells, dir, row, col, k) == piece_of(side)
}

/// Some window on the board holds four pieces of `side`.
pub open spec fn side_has_line(cells: Seq<Cell>, side: Side) -> bool {
    exists|dir: Direction, row: int, col: int|
        window_fits(dir, row, col) && #[trigger] line_of_at(cells, side, dir, row, col)
}

/// No cell of the board is empty.
pub open spec fn is_full(cells: Seq<Cell>) -> bool {
    forall|row: int, col: int| on_board(row, col) ==> #[trigger] at(cells, row, col) != Cell::Empty
}

/// The game is over: some side has four in a line, or the board is full.
pub open spec fn is_terminal_cells(cells: Seq<Cell>) -> bool {
    has_line(cells) || is_full(cells)
}

/// How the game stands on `cells`. Where both sides have four in a line,
/// which no game reaches, `X` is named.
pub open spec fn outcome_of(cells: Seq<Cell>) -> Outcome {
    if side_has_line(cells, Side::X) {
        Outcome::Win(Side::X)
    } else if side_has_line(cells, Side::O) {
        Outcome::Win(Side::O)
    } else if is_full(cells) {
        Outcome::Draw
    } else {
        Outcome::InProgress
    }
}

/// A full board ends the game, and so do four pieces of one side in a
/// window of any direction.
pub proof fn lemma_terminal_cases(cells: Seq<Cell>, dir: Direction, row: int, col: int)
    ensures
        is_full(cells) ==> is_terminal_cells(cells),
        window_fits(dir, row, col) && line_at(cells, dir, row, col) ==> is_terminal_cells(cells),
{
}

/// There is a line on the board exactly when one of the two sides has one.
pub proof fn lemma_line_has_owner(cells: Seq<Cell>)
    ensures
        has_line(cells) <==> side_has_line(cells, Side::X) || side_has_line(cells, Side::O),
{
    if has_line(cells) {
        let (dir, row, col) = choose|dir: Direction, row: int, col: int|
            window_fits(dir, row, col) && #[trigger] line_at(cells, dir, row, col);
        if window_cell(cells, dir, row, col, 0) == Cell::PlayerX {
            assert(line_of_at(cells, Side::X, dir, row, col));
        } else {
            assert(line_of_at(cells, Side::O, dir, row, col));
        }
    }
    if side_has_line(cells, Side::X) {
        let (dir, row, col) = choose|dir: Direction, row: int, col: int|
            window_fits(dir, row, col) && #[trigger] line_of_at(cells, Side::X, dir, row, col);
        assert(window_cell(cells, dir, row, col, 0) == Cell::PlayerX);
        assert(window_cell(cells, dir, row, col, 1) == Cell::PlayerX);
        assert(window_cell(cells, dir, row, col, 2) == Cell::PlayerX);
        assert(window_cell(cells, dir, row, col, 3) == Cell::PlayerX);
        assert(line_at(cells, dir, row, col));
    }
    if side_has_line(cells, Side::O) {
        let (dir, row, col) = choose|dir: Direction, row: int, col: int|
            window_fits(dir, row, col) && #[trigger] line_of_at(cells, Side::O, dir, row, col);
        assert(window_cell(cells, dir, row, col, 0) == Cell::PlayerO);
        assert(window_cell(cells, dir, row, col, 1) == Cell::PlayerO);
        assert(window_cell(cells, dir, row, col, 2) == Cell::PlayerO);
        assert(window_cell(cells, dir, row, col, 3) == Cell::PlayerO);
        assert(line_at(cells, dir, row, col));
    }
}

/// The game is over exactly when it is no longer in progress.
pub proof fn lemma_terminal_iff_decided(cells: Seq<Cell>)
    ensures
        is_terminal_cells(cells) <==> outcome_of(cells) != Outcome::InProgress,
{
    lemma_line_has_owner(cells);
}

/// A board is full exactly when no column is open.
pub proof fn lemma_full_iff_no_open_column(cells: Seq<Cell>)
    ensures
        is_full(cells) <==> forall|col: int| !column_open(cells, col),
{
    if is_full(cells) {
        assert forall|col: int| !column_open(cells, col) by {
            if column_open(cells, col) {
                let row = choose|row: int|
                    0 <= row < 6 && #[trigger] at(cells, row, col) == Cell::Empty;
                assert(on_board(row, col));
            }
        }
    }
    if forall|col: int| !column_open(cells, col) {
        assert forall|row: int, col: int| on_board(row, col) implies #[trigger] at(cells, row, col)
            != Cell::Empty by {
            assert(!column_open(cells, col));
        }
    }
}

impl Board {
    /// Whether `side` has four in a line in some window of direction `dir`.
    fn has_line_along(&self, side: Side, dir: Direction) -> (found: bool)
        ensures
            found == exists|row: int, col: int|
                window_fits(dir, row, col) && #[trigger] line_of_at(self@, side, dir, row, col),
    {
        let piece = side.piece();
        let mut row: usize = 0;
        while row < 6
            invariant
                row <= 6,
                piece == piece_of(side),
                forall|r: int, c: int|
                    0 <= r < row && window_fits(dir, r, c) ==> !#[trigger] line_of_at(
                        self@,
                        side,
                        dir,
                        r,
                        c,
                    ),
            decreases 6 - row,
        {
            let mut col: usize = 0;
            while col < 7
                invariant
                    row < 6,
                    col <= 7,
                    piece == piece_of(side),
                    forall|r: int, c: int|
                        0 <= r < row && window_fits(dir, r, c) ==> !#[trigger] line_of_at(
                            self@,
                            side,
                            dir,
                            r,
                            c,
                        ),
                    forall|c: int|
                        0 <= c < col && window_fits(dir, row as int, c) ==> !#[trigger] line_of_at(
                            self@,
                            side,
                            dir,
                            row as int,
                            c,
                        ),
                decreases 7 - col,
            {
                if dir.fits(row, col) {
                    let (a, b, c, d) = self.window(dir, row, col);
                    if a == piece && b == piece && c == piece && d == piece {
                        assert(line_of_at(self@, side, dir, row as int, col as int));
                        return true;
                    }
                    assert(!line_of_at(self@, side, dir, row as int, col as int)) by {
                        assert(window_cell(self@, dir, row as int, col as int, 0) == a);
                        assert(window_cell(self@, dir, row as int, col as int, 1) == b);
                        assert(window_cell(self@, dir, row as int, col as int, 2) == c);
                        assert(window_cell(self@, dir, row as int, col as int, 3) == d);
                    }
                }
                col += 1;
            }
            row += 1;
        }
        false
    }

    /// Whether `side` has four in a line somewhere on the board.
    pub fn has_line_of(&self, side: Side) -> (found: bool)
        ensures
            found == side_has_line(self@, side),
    {
        self.has_line_along(side, Direction::Horizontal) || self.has_line_along(
            side,
            Direction::Vertical,
        ) || self.has_line_along(side, Direction::DiagonalDown) || self.has_line_along(
            side,
            Direction::DiagonalUp,
        )
    }

    /// Whether no cell of the board is empty.
    pub fn is_full(&self) -> (full: bool)
        ensures
            full == is_full(self@),
    {
        proof {
            lemma_full_iff_no_open_column(self@);
        }
        let mut col: usize = 0;
        while col < 7
            invariant
                col <= 7,
                forall|c: int| 0 <= c < col ==> !column_open(self@, c),
            decreases 7 - col,
        {
            if self.is_column_open(col) {
                return false;
            }
            col += 1;
        }
        true
    }

    /// Whether the game is over: four in a line for either side, or a full
    /// board.
    pub fn is_terminal(&self) -> (over: bool)
        ensures
            over == is_terminal_cells(self@),
    {
        proof {
            lemma_line_has_owner(self@);
        }
        self.has_line_of(Side::X) || self.has_line_of(Side::O) || self.is_full()
    }

    /// How the game stands: won by a side, drawn, or still in progress.
    pub fn outcome(&self) -> (outcome: Outcome)
        ensures
            outcome == outcome_of(self@),
    {
        if self.has_line_of(Side::X) {
            Outcome::Win(Side::X)
        } else if self.has_line_of(Side::O) {
            Outcome::Win(Side::O)
        } else if self.is_full() {
            Outcome::Draw
        } else {
            Outcome::InProgress
        }
    }
}

} // verus!
