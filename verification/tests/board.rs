use connect_four::board::Board;
use connect_four::cell::{Cell, Side};

fn cells_of(rows: [&str; 6]) -> [Cell; 42] {
    let mut cells = [Cell::Empty; 42];
    for (row, line) in rows.iter().enumerate() {
        assert_eq!(line.len(), 7);
        for (col, symbol) in line.chars().enumerate() {
            cells[row * 7 + col] = match symbol {
                'X' => Cell::PlayerX,
                'O' => Cell::PlayerO,
                '.' => Cell::Empty,
                other => panic!("unknown symbol {}", other),
            };
        }
    }
    cells
}

fn board_of(rows: [&str; 6]) -> Board {
    Board::from_cells(cells_of(rows)).unwrap()
}

fn column_of(board: &Board, col: usize) -> Vec<Cell> {
    (0..6).map(|row| board.cell(row, col)).collect()
}

#[test]
fn new_board_is_empty() {
    let board = Board::new();
    for row in 0..6 {
        for col in 0..7 {
            assert_eq!(board.cell(row, col), Cell::Empty);
        }
    }
    assert_eq!(board.legal_moves(), vec![0, 1, 2, 3, 4, 5, 6]);
}

#[test]
fn drop_lands_in_the_lowest_empty_cell() {
    let mut board = Board::new();
    board.drop(3, Side::X);
    assert_eq!(board.cell(5, 3), Cell::PlayerX);
    assert_eq!(board.cell(4, 3), Cell::Empty);
    board.drop(3, Side::O);
    assert_eq!(board.cell(5, 3), Cell::PlayerX);
    assert_eq!(board.cell(4, 3), Cell::PlayerO);
    assert_eq!(board.cell(3, 3), Cell::Empty);
    board.drop(0, Side::O);
    assert_eq!(board.cell(5, 0), Cell::PlayerO);
    board.drop(6, Side::X);
    assert_eq!(board.cell(5, 6), Cell::PlayerX);
    assert_eq!(board, board_of([
        ".......",
        ".......",
        ".......",
        ".......",
        "...O...",
        "O..X..X",
    ]));
}

#[test]
fn drop_into_a_full_column_changes_nothing() {
    let mut board = Board::new();
    for _ in 0..3 {
        board.drop(2, Side::X);
        board.drop(2, Side::O);
    }
    let full = board;
    assert!(!board.is_column_open(2));
    board.drop(2, Side::X);
    assert_eq!(board, full);
    assert_eq!(
        column_of(&board, 2),
        vec![
            Cell::PlayerO,
            Cell::PlayerX,
            Cell::PlayerO,
            Cell::PlayerX,
            Cell::PlayerO,
            Cell::PlayerX
        ]
    );
}

#[test]
fn drop_outside_the_board_changes_nothing() {
    let mut board = Board::new();
    board.drop(1, Side::O);
    let before = board;
    board.drop(7, Side::X);
    board.drop(usize::MAX, Side::X);
    assert_eq!(board, before);
}

#[test]
fn column_is_open_while_it_has_an_empty_cell() {
    let mut board = Board::new();
    for filled in 0..6 {
        assert!(board.is_column_open(4), "with {} pieces", filled);
        board.drop(4, Side::X);
    }
    assert!(!board.is_column_open(4));
    assert!(board.is_column_open(0));
    assert!(board.is_column_open(6));
    assert!(!board.is_column_open(7));
    assert!(!board.is_column_open(100));
}

#[test]
fn undo_takes_the_topmost_piece() {
    let mut board = Board::new();
    board.drop(5, Side::X);
    board.drop(5, Side::O);
    board.drop(5, Side::X);
    board.undo(5);
    assert_eq!(board.cell(3, 5), Cell::Empty);
    assert_eq!(board.cell(4, 5), Cell::PlayerO);
    assert_eq!(board.cell(5, 5), Cell::PlayerX);
    board.undo(5);
    assert_eq!(board.cell(4, 5), Cell::Empty);
    assert_eq!(board.cell(5, 5), Cell::PlayerX);
    board.undo(5);
    assert_eq!(board, Board::new());
}

#[test]
fn undo_on_an_empty_or_missing_column_changes_nothing() {
    let mut board = Board::new();
    board.drop(0, Side::X);
    let before = board;
    board.undo(1);
    board.undo(7);
    board.undo(usize::MAX);
    assert_eq!(board, before);
}

#[test]
fn undo_empties_a_full_column_from_the_top() {
    let mut board = board_of([
        "X......",
        "O......",
        "X......",
        "O......",
        "X......",
        "O......",
    ]);
    board.undo(0);
    assert_eq!(board, board_of([
        ".......",
        "O......",
        "X......",
        "O......",
        "X......",
        "O......",
    ]));
    assert!(board.is_column_open(0));
}

#[test]
fn drop_then_undo_restores_the_board() {
    let start = board_of([
        "......O",
        "......X",
        "..O...O",
        "..XO..X",
        "O.XXO.O",
        "X.OXXOX",
    ]);
    for col in 0..7 {
        for side in [Side::X, Side::O] {
            let mut board = start;
            if !board.is_column_open(col) {
                assert_eq!(col, 6);
                continue;
            }
            board.drop(col, side);
            assert_ne!(board, start);
            board.undo(col);
            assert_eq!(board, start, "column {}", col);
        }
    }
    let mut empty = Board::new();
    for col in 0..7 {
        empty.drop(col, Side::X);
        empty.undo(col);
        assert_eq!(empty, Board::new());
    }
}

#[test]
fn legal_moves_are_the_open_columns_in_ascending_order() {
    let board = board_of([
        "X..O..O",
        "O..X..X",
        "X.OO..O",
        "O.XO..X",
        "X.XXO.O",
        "X.OXXOX",
    ]);
    assert_eq!(board.legal_moves(), vec![1, 2, 4, 5]);
    let open = (0..7).filter(|col| board.is_column_open(*col)).count();
    assert_eq!(board.legal_moves().len(), open);
}

#[test]
fn legal_moves_have_no_duplicates_and_stay_on_the_board() {
    let mut board = Board::new();
    let order = [3, 3, 0, 6, 3, 3, 2, 3, 3, 0, 0, 0, 0, 0, 6, 6, 6, 6, 6, 1];
    for (turn, col) in order.iter().enumerate() {
        board.drop(*col, if turn % 2 == 0 { Side::X } else { Side::O });
        let moves = board.legal_moves();
        for pair in moves.windows(2) {
            assert!(pair[0] < pair[1]);
        }
        for col in 0..7 {
            assert_eq!(moves.contains(&col), board.is_column_open(col));
        }
        assert!(moves.iter().all(|col| *col < 7));
    }
    assert_eq!(board.legal_moves(), vec![1, 2, 4, 5]);
}

#[test]
fn legal_moves_of_a_full_board_are_none() {
    let board = board_of([
        "XXXOOOX",
        "OOOXXXO",
        "XXXOOOX",
        "OOOXXXO",
        "XXXOOOX",
        "OOOXXXO",
    ]);
    assert_eq!(board.legal_moves(), Vec::<usize>::new());
}

#[test]
fn from_cells_keeps_the_cells() {
    let rows = [
        ".......",
        ".......",
        "..O....",
        "..XO...",
        "O.XXO..",
        "X.OXXO.",
    ];
    let board = board_of(rows);
    let cells = cells_of(rows);
    for row in 0..6 {
        for col in 0..7 {
            assert_eq!(board.cell(row, col), cells[row * 7 + col]);
        }
    }
    assert_eq!(Board::from_cells([Cell::Empty; 42]), Some(Board::new()));
}

#[test]
fn from_cells_turns_down_floating_pieces() {
    assert_eq!(
        Board::from_cells(cells_of([
            ".......",
            ".......",
            ".......",
            ".......",
            "X......",
            ".......",
        ])),
        None
    );
    assert_eq!(
        Board::from_cells(cells_of([
            "......O",
            "......X",
            "......O",
            "......X",
            ".......",
            "......X",
        ])),
        None
    );
    assert_eq!(
        Board::from_cells(cells_of([
            "...X...",
            ".......",
            ".......",
            ".......",
            ".......",
            ".......",
        ])),
        None
    );
}

#[test]
fn clone_is_independent_of_its_source() {
    let mut board = Board::new();
    board.drop(3, Side::X);
    let mut copy = board.clone();
    assert_eq!(copy, board);
    copy.drop(3, Side::O);
    assert_eq!(board.cell(4, 3), Cell::Empty);
    assert_eq!(copy.cell(4, 3), Cell::PlayerO);
    board.undo(3);
    assert_eq!(copy.cell(5, 3), Cell::PlayerX);
}

#[test]
fn sides_and_pieces() {
    assert_eq!(Side::X.piece(), Cell::PlayerX);
    assert_eq!(Side::O.piece(), Cell::PlayerO);
    assert_eq!(Side::to_move(true), Side::X);
    assert_eq!(Side::to_move(false), Side::O);
}
