use connect_four::board::Board;
use connect_four::cell::{Cell, Side};
use connect_four::table::{Alignment, TableEntry};

#[test]
fn cells_have_symbols() {
    assert_eq!(Cell::Empty.symbol(), ' ');
    assert_eq!(Cell::PlayerX.symbol(), 'X');
    assert_eq!(Cell::PlayerO.symbol(), 'O');
}

#[test]
fn table_starts_with_the_slot_numbers() {
    let lines = Board::new().table();
    assert_eq!(lines.len(), 7);
    let labels: Vec<char> = lines[0].iter().map(|entry| entry.text).collect();
    assert_eq!(labels, vec!['1', '2', '3', '4', '5', '6', '7']);
    assert!(lines[0].iter().all(|entry| entry.alignment == Alignment::Center));
}

#[test]
fn table_of_the_empty_board_is_blank() {
    let lines = Board::new().table();
    for line in &lines[1..] {
        assert_eq!(line.len(), 7);
        assert!(line.iter().all(|entry| entry.text == ' '));
    }
}

#[test]
fn table_shows_the_rows_from_the_top() {
    let mut board = Board::new();
    board.drop(0, Side::X);
    board.drop(0, Side::O);
    board.drop(3, Side::O);
    board.drop(6, Side::X);
    board.drop(2, Side::X);
    let lines = board.table();
    let text = |line: usize| -> String { lines[line].iter().map(|entry| entry.text).collect() };
    assert_eq!(text(1), "       ");
    assert_eq!(text(4), "       ");
    assert_eq!(text(5), "O      ");
    assert_eq!(text(6), "X XO  X");
    for line in 1..7 {
        for col in 0..7 {
            assert_eq!(lines[line][col].text, board.cell(line - 1, col).symbol());
        }
    }
}

#[test]
fn table_columns_are_aligned_by_their_side() {
    let lines = Board::new().table();
    for line in &lines[1..] {
        let alignments: Vec<Alignment> = line.iter().map(|entry| entry.alignment).collect();
        assert_eq!(
            alignments,
            vec![
                Alignment::Left,
                Alignment::Left,
                Alignment::Left,
                Alignment::Center,
                Alignment::Right,
                Alignment::Right,
                Alignment::Right
            ]
        );
    }
    assert_eq!(lines[6][3], TableEntry { text: ' ', alignment: Alignment::Center });
}
