use connect_four::board::Board;
use connect_four::cell::{Cell, Side};
use connect_four::terminal::Outcome;
use connect_four::window::Direction;

fn board_from(rows: [&str; 6]) -> Board {
    let mut cells = [Cell::Empty; 42];
    for (row, line) in rows.iter().enumerate() {
        for (col, symbol) in line.chars().enumerate() {
            cells[row * 7 + col] = match symbol {
                'X' => Cell::PlayerX,
                'O' => Cell::PlayerO,
                _ => Cell::Empty,
            };
        }
    }
    Board::from_cells(cells).unwrap()
}

#[test]
fn empty_board_is_not_terminal() {
    let board = Board::new();
    assert!(!board.is_terminal());
    assert!(!board.is_full());
    assert!(!board.has_line_of(Side::X));
    assert!(!board.has_line_of(Side::O));
    assert_eq!(board.outcome(), Outcome::InProgress);
}

#[test]
fn full_board_without_a_line_is_terminal() {
    let board = board_from([
        "XXXOOOX",
        "OOOXXXO",
        "XXXOOOX",
        "OOOXXXO",
        "XXXOOOX",
        "OOOXXXO",
    ]);
    assert!(board.is_full());
    assert!(!board.has_line_of(Side::X));
    assert!(!board.has_line_of(Side::O));
    assert!(board.is_terminal());
    assert_eq!(board.outcome(), Outcome::Draw);
}

#[test]
fn horizontal_line_is_terminal() {
    let board = board_from([
        ".......",
        ".......",
        ".......",
        ".......",
        "...OOO.",
        "...XXXX",
    ]);
    assert!(board.is_terminal());
    assert!(board.has_line_of(Side::X));
    assert!(!board.has_line_of(Side::O));
    assert_eq!(board.outcome(), Outcome::Win(Side::X));
}

#[test]
fn vertical_line_is_terminal() {
    let board = board_from([
        ".......",
        ".......",
        "..O....",
        "..O....",
        "..OX...",
        "X.OXX..",
    ]);
    assert!(board.is_terminal());
    assert!(board.has_line_of(Side::O));
    assert!(!board.has_line_of(Side::X));
    assert_eq!(board.outcome(), Outcome::Win(Side::O));
}

#[test]
fn falling_diagonal_line_is_terminal() {
    let board = board_from([
        ".......",
        ".......",
        "X......",
        "OX.....",
        "OOX....",
        "OOOX...",
    ]);
    assert!(board.is_terminal());
    assert!(board.has_line_of(Side::X));
    assert_eq!(board.outcome(), Outcome::Win(Side::X));
}

#[test]
fn rising_diagonal_line_is_terminal() {
    let board = board_from([
        ".......",
        ".......",
        "......O",
        ".....OX",
        "....OXX",
        "...OXXX",
    ]);
    assert!(board.is_terminal());
    assert!(board.has_line_of(Side::O));
    assert!(!board.has_line_of(Side::X));
    assert_eq!(board.outcome(), Outcome::Win(Side::O));
}

#[test]
fn lines_in_the_top_corner_count() {
    let board = board_from([
        "...XXXX",
        "...OXOO",
        "...XOXO",
        "...OXOX",
        "...XOXO",
        "...OXOX",
    ]);
    assert!(board.has_line_of(Side::X));
    assert_eq!(board.outcome(), Outcome::Win(Side::X));
}

#[test]
fn three_in_a_line_is_not_terminal() {
    let board = board_from([
        ".......",
        ".......",
        ".......",
        "O......",
        "OX.....",
        "OXXX...",
    ]);
    assert!(!board.is_terminal());
    assert_eq!(board.outcome(), Outcome::InProgress);
}

#[test]
fn four_pieces_of_two_sides_are_no_line() {
    let board = board_from([
        ".......",
        ".......",
        "X......",
        "O......",
        "O......",
        "OXXOX..",
    ]);
    assert!(!board.has_line_of(Side::X));
    assert!(!board.has_line_of(Side::O));
    assert!(!board.is_terminal());
}

#[test]
fn line_on_a_full_board_is_a_win() {
    let board = board_from([
        "XXXOOOX",
        "OOOXXXO",
        "XXXOOOX",
        "OOOXOXO",
        "XXXXOOX",
        "OOOXXXO",
    ]);
    assert!(board.is_full());
    assert!(board.has_line_of(Side::X));
    assert!(board.is_terminal());
    assert_eq!(board.outcome(), Outcome::Win(Side::X));
}

#[test]
fn windows_that_fit_the_board() {
    let mut count = 0;
    for dir in [
        Direction::Horizontal,
        Direction::Vertical,
        Direction::DiagonalDown,
        Direction::DiagonalUp,
    ] {
        for row in 0..6 {
            for col in 0..7 {
                if dir.fits(row, col) {
                    count += 1;
                }
            }
        }
    }
    assert_eq!(count, 69);
    assert!(Direction::Horizontal.fits(5, 3));
    assert!(!Direction::Horizontal.fits(5, 4));
    assert!(!Direction::Horizontal.fits(6, 0));
    assert!(Direction::Vertical.fits(2, 6));
    assert!(!Direction::Vertical.fits(3, 6));
    assert!(!Direction::Vertical.fits(0, 7));
    assert!(Direction::DiagonalDown.fits(2, 3));
    assert!(!Direction::DiagonalDown.fits(3, 3));
    assert!(!Direction::DiagonalDown.fits(2, 4));
    assert!(Direction::DiagonalUp.fits(3, 3));
    assert!(Direction::DiagonalUp.fits(5, 0));
    assert!(!Direction::DiagonalUp.fits(2, 0));
    assert!(!Direction::DiagonalUp.fits(5, 4));
    assert!(!Direction::DiagonalUp.fits(6, 0));
}
