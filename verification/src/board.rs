//! The board: 42 cells that always obey gravity.

use vstd::prelude::*;
use crate::cell::{Cell, Side, piece_of};
use crate::grid::{
    at, column_open, drop_cells, empty_grid, gravity, highest_piece_row, landing_row,
    lemma_drop_keeps_valid, lemma_open_columns_below, lemma_open_iff_top_empty,
    lemma_undo_keeps_valid, lowest_empty_row, open_columns, open_columns_below, top_row,
    undo_cells, valid_grid,
};

verus! {

/// A Connect Four position. The cells are private: a board is made empty or
/// from a grid that obeys gravity, and changes only by dropping a piece into
/// a column or taking the topmost piece of a column off again.
#[derive(Copy, Debug, PartialEq, Eq)]
pub struct Board {
    cells: [Cell; 42],
}

impl View for Board {
    type V = Seq<Cell>;

    closed spec fn view(&self) -> Seq<Cell> {
        self.cells@
    }
}

impl Clone for Board {
    /// An independent copy of the board, cell for cell.
    fn clone(&self) -> (copy: Board)
        ensures
            copy@ == self@,
    {
        proof {
            use_type_invariant(self);
        }
        Board { cells: self.cells }
    }
}

impl Board {
    /// Every board has 42 cells and obeys gravity.
    #[verifier::type_invariant]
    pub open spec fn well_formed(&self) -> bool {
        valid_grid(self@)
    }

    /// The empty board.
    pub fn new() -> (board: Board)
        ensures
            board@ == empty_grid(),
            board.well_formed(),
    {
        let board = Board { cells: [Cell::Empty;42] };
        assert(board@ =~= empty_grid());
        board
    }

    /// The board that holds `cells`, row after row from the top, if they
    /// obey gravity; `None` if a piece floats above an empty cell.
    pub fn from_cells(cells: [Cell; 42]) -> (board: Option<Board>)
        ensures
            board is Some <==> gravity(cells@),
            board is Some ==> board.unwrap()@ == cells@,
    {
        let mut col: usize = 0;
        while col < 7
            invariant
                col <= 7,
                forall|upper: int, lower: int, c: int|
                    #![trigger at(cells@, upper, c), at(cells@, lower, c)]
                    0 <= upper <= lower < 6 && 0 <= c < col && at(cells@, upper, c) != Cell::Empty
                        ==> at(cells@, lower, c) != Cell::Empty,
            decreases 7 - col,
        {
            let mut row: usize = 0;
            let mut occupied_above = false;
            let ghost mut witness: int = 0;
            while row < 6
                invariant
                    row <= 6,
                    col < 7,
                    occupied_above ==> 0 <= witness < row && at(cells@, witness, col as int)
                        != Cell::Empty,
                    !occupied_above ==> forall|r: int|
                        0 <= r < row ==> #[trigger] at(cells@, r, col as int) == Cell::Empty,
                    forall|upper: int, lower: int|
                        #![trigger at(cells@, upper, col as int), at(cells@, lower, col as int)]
                        0 <= upper <= lower < row && at(cells@, upper, col as int) != Cell::Empty
                            ==> at(cells@, lower, col as int) != Cell::Empty,
                decreases 6 - row,
            {
                if cells[row * 7 + col] == Cell::Empty {
                    if occupied_above {
                        assert(!gravity(cells@)) by {
                            assert(at(cells@, witness, col as int) != Cell::Empty);
                            assert(at(cells@, row as int, col as int) == Cell::Empty);
                        }
                        return None;
                    }
                } else {
                    proof {
                        if !occupied_above {
                            witness = row as int;
                        }
                    }
                    occupied_above = true;
                }
                row += 1;
            }
            col += 1;
        }
        Some(Board { cells })
    }

    /// The cell in `row` (0 at the top) and `col` (0 at the left).
    pub fn cell(&self, row: usize, col: usize) -> (cell: Cell)
        requires
            row < 6,
            col < 7,
        ensures
            cell == at(self@, row as int, col as int),
    {
        self.cells[row * 7 + col]
    }

    /// Whether `col` exists and still has room for a piece.
    pub fn is_column_open(&self, col: usize) -> (open: bool)
        ensures
            open == column_open(self@, col as int),
    {
        proof {
            use_type_invariant(self);
            if col < 7 {
                lemma_open_iff_top_empty(self@, col as int);
            }
        }
        col < 7 && self.cells[col] == Cell::Empty
    }

    /// Drops a piece of `side` into `col`: it comes to rest in the lowest
    /// empty cell of the column. A full column, or one that does not exist,
    /// leaves the board as it is.
    pub fn drop(&mut self, col: usize, side: Side)
        ensures
            final(self)@ == drop_cells(old(self)@, col as int, piece_of(side)),
            final(self).well_formed(),
    {
        proof {
            use_type_invariant(&*self);
        }
        if col >= 7 {
            return ;
        }
        let mut row: usize = 6;
        while row > 0
            invariant
                row <= 6,
                col < 7,
                self@ == old(self)@,
                valid_grid(self@),
                landing_row(self@, col as int) == lowest_empty_row(self@, col as int, row as int),
            decreases row,
        {
            if self.cells[(row - 1) * 7 + col] == Cell::Empty {
                let piece = side.piece();
                proof {
                    lemma_drop_keeps_valid(self@, col as int, piece);
                }
                self.cells[(row - 1) * 7 + col] = piece;
                return ;
            }
            row -= 1;
        }
    }

    /// Takes the topmost piece of `col` off the board. An empty column, or
    /// one that does not exist, leaves the board as it is.
    pub fn undo(&mut self, col: usize)
        ensures
            final(self)@ == undo_cells(old(self)@, col as int),
            final(self).well_formed(),
    {
        proof {
            use_type_invariant(&*self);
        }
        if col >= 7 {
            return ;
        }
        let mut row: usize = 0;
        while row < 6
            invariant
                row <= 6,
                col < 7,
                self@ == old(self)@,
                valid_grid(self@),
                top_row(self@, col as int) == highest_piece_row(self@, col as int, row as int),
            decreases 6 - row,
        {
            if self.cells[row * 7 + col] != Cell::Empty {
                proof {
                    lemma_undo_keeps_valid(self@, col as int);
                }
                self.cells[row * 7 + col] = Cell::Empty;
                return ;
            }
            row += 1;
        }
    }
    /// The legal moves: the open columns, in ascending order.
    pub fn legal_moves(&self) -> (moves: Vec<usize>)
        ensures
            moves@.map_values(|col: usize| col as int) == open_columns(self@),
            moves.len() <= 7,
            forall|i: int|
                0 <= i < moves.len() ==> (#[trigger] moves[i]) < 7 && column_open(
                    self@,
                    moves[i] as int,
                ),
            forall|i: int, j: int|
                0 <= i < j < moves.len() ==> (#[trigger] moves[i]) < (#[trigger] moves[j]),
            forall|col: int| column_open(self@, col) ==> moves@.contains(col as usize),
    {
        let mut moves: Vec<usize> = Vec::new();
        let mut col: usize = 0;
        while col < 7
            invariant
                col <= 7,
                moves@.map_values(|c: usize| c as int) == open_columns_below(self@, col as int),
            decreases 7 - col,
        {
            let ghost before = moves@;
            if self.is_column_open(col) {
                moves.push(col);
                assert(moves@.map_values(|c: usize| c as int) =~= before.map_values(
                    |c: usize| c as int,
                ).push(col as int));
            }
            col += 1;
        }
        proof {
            lemma_open_columns_below(self@, 7);
            let ints = moves@.map_values(|c: usize| c as int);
            assert forall|i: int| 0 <= i < moves.len() implies (#[trigger] moves[i]) < 7
                && column_open(self@, moves[i] as int) by {
                assert(ints[i] == moves[i] as int);
            }
            assert forall|i: int, j: int| 0 <= i < j < moves.len() implies (#[trigger] moves[i])
                < (#[trigger] moves[j]) by {
                assert(ints[i] == moves[i] as int);
                assert(ints[j] == moves[j] as int);
            }
            assert forall|c: int| column_open(self@, c) implies moves@.contains(c as usize) by {
                let i = choose|i: int| 0 <= i < ints.len() && ints[i] == c;
                assert(moves@[i] == c as usize);
            }
        }
        moves
    }
}

} // verus!
