use connect_four::board::Board;
use connect_four::cell::{Cell, Side};
use connect_four::game::{check_depth, play_search, play_slot, GameError, Reply, MAX_DEPTH};
use connect_four::terminal::Outcome;

#[test]
fn depths_up_to_ten_are_accepted() {
    for level in 0..=10 {
        assert_eq!(check_depth(level), Ok(level as u32));
    }
    assert_eq!(MAX_DEPTH, 10);
}

#[test]
fn deeper_searches_are_turned_down() {
    assert_eq!(check_depth(11), Err(GameError::ConfigurationError));
    assert_eq!(check_depth(12), Err(GameError::ConfigurationError));
    assert_eq!(check_depth(usize::MAX), Err(GameError::ConfigurationError));
}

#[test]
fn slots_count_from_one() {
    let mut board = Board::new();
    assert_eq!(play_slot(&mut board, 1, Side::X), Ok(Outcome::InProgress));
    assert_eq!(board.cell(5, 0), Cell::PlayerX);
    assert_eq!(play_slot(&mut board, 7, Side::O), Ok(Outcome::InProgress));
    assert_eq!(board.cell(5, 6), Cell::PlayerO);
    assert_eq!(play_slot(&mut board, 7, Side::X), Ok(Outcome::InProgress));
    assert_eq!(board.cell(4, 6), Cell::PlayerX);
}

#[test]
fn slots_off_the_board_are_invalid() {
    let mut board = Board::new();
    assert_eq!(play_slot(&mut board, 0, Side::X), Err(GameError::InvalidMove));
    assert_eq!(play_slot(&mut board, 8, Side::X), Err(GameError::InvalidMove));
    assert_eq!(play_slot(&mut board, usize::MAX, Side::O), Err(GameError::InvalidMove));
    assert_eq!(board, Board::new());
}

#[test]
fn full_slot_is_invalid() {
    let mut board = Board::new();
    for turn in 0..6 {
        let side = if turn % 2 == 0 { Side::X } else { Side::O };
        assert_eq!(play_slot(&mut board, 3, side), Ok(Outcome::InProgress));
    }
    let full = board;
    assert_eq!(play_slot(&mut board, 3, Side::X), Err(GameError::InvalidMove));
    assert_eq!(board, full);
}

#[test]
fn winning_move_is_reported() {
    let mut board = Board::new();
    for slot in 1..4 {
        assert_eq!(play_slot(&mut board, slot, Side::X), Ok(Outcome::InProgress));
        assert_eq!(play_slot(&mut board, slot, Side::O), Ok(Outcome::InProgress));
    }
    assert_eq!(play_slot(&mut board, 4, Side::X), Ok(Outcome::Win(Side::X)));
}

#[test]
fn last_move_of_a_drawn_game_is_reported() {
    let rows = ["XXXOOO.", "OOOXXXO", "XXXOOOX", "OOOXXXO", "XXXOOOX", "OOOXXXO"];
    let mut cells = [Cell::Empty; 42];
    for (row, line) in rows.iter().enumerate() {
        for (col, symbol) in line.chars().enumerate() {
            cells[row * 7 + col] = match symbol {
                'X' => Cell::PlayerX,
                'O' => Cell::PlayerO,
                _ => Cell::Empty,
            };
        }
    }
    let mut board = Board::from_cells(cells).unwrap();
    assert_eq!(play_slot(&mut board, 7, Side::X), Ok(Outcome::Draw));
    let mut board = Board::from_cells(cells).unwrap();
    assert_eq!(play_slot(&mut board, 7, Side::O), Ok(Outcome::Win(Side::O)));
}

#[test]
fn search_without_depth_is_exhausted() {
    let mut board = Board::new();
    assert_eq!(play_search(&mut board, 0, Side::O), Err(GameError::ExhaustedSearch));
    assert_eq!(board, Board::new());
}

#[test]
fn search_on_a_finished_game_is_exhausted() {
    let mut board = Board::new();
    for slot in 1..5 {
        board.drop(slot, Side::X);
    }
    let won = board;
    assert_eq!(play_search(&mut board, 3, Side::O), Err(GameError::ExhaustedSearch));
    assert_eq!(board, won);
}

#[test]
fn searching_side_blocks_and_reports_its_slot() {
    let mut board = Board::new();
    for slot in 1..4 {
        assert_eq!(play_slot(&mut board, slot, Side::X), Ok(Outcome::InProgress));
    }
    let reply = play_search(&mut board, 2, Side::O).unwrap();
    assert_eq!(reply, Reply { slot: 4, score: 4, outcome: Outcome::InProgress });
    assert_eq!(board.cell(5, 3), Cell::PlayerO);
}

#[test]
fn searching_side_wins_where_it_can() {
    let mut board = Board::new();
    for _ in 0..3 {
        board.drop(2, Side::O);
    }
    board.drop(0, Side::X);
    board.drop(1, Side::X);
    let reply = play_search(&mut board, 1, Side::O).unwrap();
    assert_eq!(reply, Reply { slot: 3, score: -1007, outcome: Outcome::Win(Side::O) });
    assert_eq!(board.cell(2, 2), Cell::PlayerO);
}

#[test]
fn searching_side_may_play_x() {
    let mut board = Board::new();
    board.drop(0, Side::X);
    board.drop(1, Side::X);
    board.drop(2, Side::X);
    let reply = play_search(&mut board, 3, Side::X).unwrap();
    assert_eq!(reply, Reply { slot: 4, score: 1007, outcome: Outcome::Win(Side::X) });
}
