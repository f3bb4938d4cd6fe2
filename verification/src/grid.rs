//! The mathematical model of the board: a sequence of 42 cells that holds
//! the 6 rows of 7 columns one after the other, row 0 at the top and column 0
//! at the left, and what dropping and removing pieces means on it.

use vstd::prelude::*;
use crate::cell::Cell;

verus! {

/// `(row, col)` names a cell of the board.
pub open spec fn on_board(row: int, col: int) -> bool {
    0 <= row < 6 && 0 <= col < 7
}

/// The cell in `row` and `col`.
pub open spec fn at(cells: Seq<Cell>, row: int, col: int) -> Cell {
    cells[row * 7 + col]
}

/// The board on which no piece has been played.
pub open spec fn empty_grid() -> Seq<Cell> {
    Seq::new(42, |i: int| Cell::Empty)
}

/// No piece floats: below an occupied cell every cell of the column is
/// occupied.
pub open spec fn gravity(cells: Seq<Cell>) -> bool {
    forall|upper: int, lower: int, col: int|
        #![trigger at(cells, upper, col), at(cells, lower, col)]
        0 <= upper <= lower < 6 && 0 <= col < 7 && at(cells, upper, col) != Cell::Empty ==> at(
            cells,
            lower,
            col,
        ) != Cell::Empty
}

/// A board of 42 cells that obeys gravity.
pub open spec fn valid_grid(cells: Seq<Cell>) -> bool {
    cells.len() == 42 && gravity(cells)
}

/// Column `col` exists and has at least one empty cell.
pub open spec fn column_open(cells: Seq<Cell>, col: int) -> bool {
    0 <= col < 7 && exists|row: int| 0 <= row < 6 && #[trigger] at(cells, row, col) == Cell::Empty
}

/// The greatest row above `below` whose cell in `col` is empty, or -1 if
/// there is none.
pub open spec fn lowest_empty_row(cells: Seq<Cell>, col: int, below: int) -> int
    decreases below,
{
    if below <= 0 {
        -1
    } else if at(cells, below - 1, col) == Cell::Empty {
        below - 1
    } else {
        lowest_empty_row(cells, col, below - 1)
    }
}

/// The row in which a piece dropped into `col` comes to rest, or -1 if the
/// column is full.
pub open spec fn landing_row(cells: Seq<Cell>, col: int) -> int {
    lowest_empty_row(cells, col, 6)
}

/// The board after `piece` was dropped into `col`. Nothing changes if the
/// column does not exist or is full.
pub open spec fn drop_cells(cells: Seq<Cell>, col: int, piece: Cell) -> Seq<Cell> {
    if 0 <= col < 7 && landing_row(cells, col) >= 0 {
        cells.update(landing_row(cells, col) * 7 + col, piece)
    } else {
        cells
    }
}

/// The least row from `from` on whose cell in `col` is occupied, or 6 if
/// there is none.
pub open spec fn highest_piece_row(cells: Seq<Cell>, col: int, from: int) -> int
    decreases 6 - from,
{
    if from >= 6 {
        6
    } else if at(cells, from, col) != Cell::Empty {
        from
    } else {
        highest_piece_row(cells, col, from + 1)
    }
}

/// The row of the topmost piece in `col`, or 6 if the column is empty.
pub open spec fn top_row(cells: Seq<Cell>, col: int) -> int {
    highest_piece_row(cells, col, 0)
}

/// The board after the topmost piece of `col` was taken off. Nothing changes
/// if the column does not exist or is empty.
pub open spec fn undo_cells(cells: Seq<Cell>, col: int) -> Seq<Cell> {
    if 0 <= col < 7 && top_row(cells, col) < 6 {
        cells.update(top_row(cells, col) * 7 + col, Cell::Empty)
    } else {
        cells
    }
}

/// The open columns below `cols`, in ascending order.
pub open spec fn open_columns_below(cells: Seq<Cell>, cols: int) -> Seq<int>
    decreases cols,
{
    if cols <= 0 {
        Seq::empty()
    } else if column_open(cells, cols - 1) {
        open_columns_below(cells, cols - 1).push(cols - 1)
    } else {
        open_columns_below(cells, cols - 1)
    }
}

/// The legal moves: every open column, in ascending order.
pub open spec fn open_columns(cells: Seq<Cell>) -> Seq<int> {
    open_columns_below(cells, 7)
}

/// What `lowest_empty_row` finds: an empty cell with none but occupied cells
/// between it and `below`, or nothing where every cell above `below` is
/// occupied.
pub proof fn lemma_lowest_empty_row(cells: Seq<Cell>, col: int, below: int)
    requires
        0 <= below <= 6,
    ensures
        -1 <= lowest_empty_row(cells, col, below) < below,
        lowest_empty_row(cells, col, below) >= 0 ==> at(
            cells,
            lowest_empty_row(cells, col, below),
            col,
        ) == Cell::Empty,
        forall|row: int|
            lowest_empty_row(cells, col, below) < row < below ==> #[trigger] at(cells, row, col)
                != Cell::Empty,
    decreases below,
{
    if below > 0 && at(cells, below - 1, col) != Cell::Empty {
        lemma_lowest_empty_row(cells, col, below - 1);
    }
}

/// What `highest_piece_row` finds: an occupied cell with none but empty
/// cells between `from` and it, or nothing where every cell from `from` on is
/// empty.
pub proof fn lemma_highest_piece_row(cells: Seq<Cell>, col: int, from: int)
    requires
        0 <= from <= 6,
    ensures
        from <= highest_piece_row(cells, col, from) <= 6,
        highest_piece_row(cells, col, from) < 6 ==> at(
            cells,
            highest_piece_row(cells, col, from),
            col,
        ) != Cell::Empty,
        forall|row: int|
            from <= row < highest_piece_row(cells, col, from) ==> #[trigger] at(cells, row, col)
                == Cell::Empty,
    decreases 6 - from,
{
    if from < 6 && at(cells, from, col) == Cell::Empty {
        lemma_highest_piece_row(cells, col, from + 1);
    }
}

/// A column is open exactly when a dropped piece has a row to land in.
pub proof fn lemma_open_iff_landing(cells: Seq<Cell>, col: int)
    requires
        0 <= col < 7,
    ensures
        column_open(cells, col) <==> landing_row(cells, col) >= 0,
{
    lemma_lowest_empty_row(cells, col, 6);
    let landing = landing_row(cells, col);
    if landing >= 0 {
        assert(at(cells, landing, col) == Cell::Empty);
    }
}

/// On a board that obeys gravity a column is open exactly when its top cell
/// is empty.
pub proof fn lemma_open_iff_top_empty(cells: Seq<Cell>, col: int)
    requires
        valid_grid(cells),
        0 <= col < 7,
    ensures
        column_open(cells, col) <==> at(cells, 0, col) == Cell::Empty,
{
    if column_open(cells, col) {
        let row = choose|row: int| 0 <= row < 6 && #[trigger] at(cells, row, col) == Cell::Empty;
        assert(at(cells, 0, col) != Cell::Empty ==> at(cells, row, col) != Cell::Empty);
    }
}

/// The legal moves are columns of the board, in strictly ascending order,
/// each of them open, and no open column is missing.
pub proof fn lemma_open_columns_below(cells: Seq<Cell>, cols: int)
    requires
        0 <= cols <= 7,
    ensures
        open_columns_below(cells, cols).len() <= cols,
        forall|i: int|
            0 <= i < open_columns_below(cells, cols).len() ==> 0 <= (
            #[trigger] open_columns_below(cells, cols)[i]) < cols && column_open(
                cells,
                open_columns_below(cells, cols)[i],
            ),
        forall|i: int, j: int|
            0 <= i < j < open_columns_below(cells, cols).len() ==> (
            #[trigger] open_columns_below(cells, cols)[i]) < (#[trigger] open_columns_below(
                cells,
                cols,
            )[j]),
        forall|col: int|
            0 <= col < cols && column_open(cells, col) ==> open_columns_below(
                cells,
                cols,
            ).contains(col),
    decreases cols,
{
    if cols > 0 {
        lemma_open_columns_below(cells, cols - 1);
        let earlier = open_columns_below(cells, cols - 1);
        let now = open_columns_below(cells, cols);
        assert forall|col: int| 0 <= col < cols && column_open(cells, col) implies now.contains(
            col,
        ) by {
            if col < cols - 1 {
                let i = choose|i: int| 0 <= i < earlier.len() && earlier[i] == col;
                assert(now[i] == col);
            } else {
                assert(now[now.len() - 1] == col);
            }
        }
    }
}

/// The legal moves name every open column exactly once: they are columns
/// 0 to 6 without duplicates, and there are as many of them as there are
/// columns with an empty cell.
pub proof fn lemma_legal_moves(cells: Seq<Cell>)
    ensures
        open_columns(cells).no_duplicates(),
        forall|i: int|
            0 <= i < open_columns(cells).len() ==> 0 <= (#[trigger] open_columns(cells)[i]) < 7,
        open_columns(cells).to_set() == Set::new(|col: int| column_open(cells, col)),
        Set::new(|col: int| column_open(cells, col)).finite(),
        open_columns(cells).len() == Set::new(|col: int| column_open(cells, col)).len(),
{
    lemma_open_columns_below(cells, 7);
    let moves = open_columns(cells);
    let open = Set::new(|col: int| column_open(cells, col));
    assert(moves.to_set() =~= open) by {
        assert forall|col: int| moves.to_set().contains(col) implies open.contains(col) by {
            let i = choose|i: int| 0 <= i < moves.len() && moves[i] == col;
            assert(column_open(cells, moves[i]));
        }
    }
    moves.unique_seq_to_set();
}

/// Dropping a piece into an open column and then taking the topmost piece of
/// that column off gives back the board as it was, cell for cell.
pub proof fn lemma_drop_then_undo(cells: Seq<Cell>, col: int, piece: Cell)
    requires
        valid_grid(cells),
        column_open(cells, col),
        piece != Cell::Empty,
    ensures
        undo_cells(drop_cells(cells, col, piece), col) == cells,
{
    lemma_open_iff_landing(cells, col);
    lemma_lowest_empty_row(cells, col, 6);
    let landing = landing_row(cells, col);
    let dropped = drop_cells(cells, col, piece);
    lemma_highest_piece_row(dropped, col, 0);
    let top = top_row(dropped, col);
    assert(at(dropped, landing, col) == piece);
    assert forall|row: int| 0 <= row < landing implies #[trigger] at(dropped, row, col)
        == Cell::Empty by {
        assert(at(cells, row, col) != Cell::Empty ==> at(cells, landing, col) != Cell::Empty);
    }
    assert(top == landing);
    assert(undo_cells(dropped, col) =~= cells);
}

/// Dropping a piece keeps a valid board valid.
pub proof fn lemma_drop_keeps_valid(cells: Seq<Cell>, col: int, piece: Cell)
    requires
        valid_grid(cells),
        piece != Cell::Empty,
    ensures
        valid_grid(drop_cells(cells, col, piece)),
{
    if 0 <= col < 7 && landing_row(cells, col) >= 0 {
        lemma_lowest_empty_row(cells, col, 6);
        let next = drop_cells(cells, col, piece);
        assert forall|upper: int, lower: int, c: int|
            0 <= upper <= lower < 6 && 0 <= c < 7 && at(next, upper, c)
                != Cell::Empty implies at(next, lower, c) != Cell::Empty by {
            if at(cells, upper, c) != Cell::Empty {
                assert(at(cells, lower, c) != Cell::Empty);
            } else if lower > upper {
                assert(at(cells, lower, c) != Cell::Empty);
            }
        }
    }
}

/// Taking a piece off keeps a valid board valid.
pub proof fn lemma_undo_keeps_valid(cells: Seq<Cell>, col: int)
    requires
        valid_grid(cells),
    ensures
        valid_grid(undo_cells(cells, col)),
{
    if 0 <= col < 7 && top_row(cells, col) < 6 {
        lemma_highest_piece_row(cells, col, 0);
        let next = undo_cells(cells, col);
        assert forall|upper: int, lower: int, c: int|
            0 <= upper <= lower < 6 && 0 <= c < 7 && at(next, upper, c)
                != Cell::Empty implies at(next, lower, c) != Cell::Empty by {
            assert(at(cells, upper, c) != Cell::Empty);
            assert(at(cells, lower, c) != Cell::Empty);
        }
    }
}

} // verus!
