//! The rules of a game between two players at the board: which depth and
//! which moves are accepted, and what a turn does to the board.

use vstd::prelude::*;
use crate::board::Board;
use crate::cell::{Cell, Side, piece_of};
use crate::grid::{column_open, drop_cells};
use crate::search::{lemma_search_names_a_move, lemma_search_names_open_column, search_result};
use crate::terminal::{Outcome, is_terminal_cells, outcome_of};

verus! {

/// The deepest search that a game may be set up with.
pub const MAX_DEPTH: usize = 10;

/// Why a request was turned down.
#[derive(Clone, Copy, PartialEq, Eq, Structural, Debug)]
pub enum GameError {
    /// The slot is none of 1 to 7, or its column is full.
    InvalidMove,
    /// The search had no move to name: it was given no depth, or the game
    /// is over.
    ExhaustedSearch,
    /// The search depth is beyond the deepest that is supported.
    ConfigurationError,
}

/// What the searching side did on its turn.
#[derive(Clone, Copy, PartialEq, Eq, Structural, Debug)]
pub struct Reply {
    /// The slot, 1 to 7, into which the piece went.
    pub slot: usize,
    /// The score that the search gave the position before the move.
    pub score: i32,
    /// How the game stands after the move.
    pub outcome: Outcome,
}

/// `slot` is one of the slots 1 to 7 as the players count them, and its
/// column, which the board counts from 0, has room.
pub open spec fn slot_open(cells: Seq<Cell>, slot: int) -> bool {
    1 <= slot <= 7 && column_open(cells, slot - 1)
}

/// Whether the side moves at a maximizing ply: `X` does, `O` does not.
pub open spec fn maximizes(side: Side) -> bool {
    side == Side::X
}

/// Accepts a search depth of 0 to 10 and turns down any other.
pub fn check_depth(level: usize) -> (depth: Result<u32, GameError>)
    ensures
        level <= 10 ==> depth == Ok::<u32, GameError>(level as u32),
        level > 10 ==> depth == Err::<u32, GameError>(GameError::ConfigurationError),
{
    if level <= MAX_DEPTH {
        Ok(level as u32)
    } else {
        Err(GameError::ConfigurationError)
    }
}

/// Plays a piece of `side` into `slot`, counted from 1 on the left, and
/// says how the game stands afterwards. A slot that does not exist or whose
/// column is full is turned down, and the board stays as it is.
pub fn play_slot(board: &mut Board, slot: usize, side: Side) -> (played: Result<Outcome, GameError>)
    ensures
        slot_open(old(board)@, slot as int) ==> final(board)@ == drop_cells(
            old(board)@,
            slot - 1,
            piece_of(side),
        ) && played == Ok::<Outcome, GameError>(outcome_of(final(board)@)),
        !slot_open(old(board)@, slot as int) ==> final(board)@ == old(board)@ && played == Err::<
            Outcome,
            GameError,
        >(GameError::InvalidMove),
{
    if slot < 1 || slot > 7 || !board.is_column_open(slot - 1) {
        return Err(GameError::InvalidMove);
    }
    board.drop(slot - 1, side);
    Ok(board.outcome())
}

/// Lets `side` search `depth` plies deep and play the move that the search
/// names. Where the search names none, because the depth is 0 or the game
/// is over, the board stays as it is.
pub fn play_search(board: &mut Board, depth: u32, side: Side) -> (played: Result<Reply, GameError>)
    ensures
        played is Ok <==> depth > 0 && !is_terminal_cells(old(board)@),
        match search_result(old(board)@, depth as nat, maximizes(side)).0 {
            Some(col) => {
                &&& final(board)@ == drop_cells(old(board)@, col, piece_of(side))
                &&& played matches Ok(reply)
                &&& reply.slot == col + 1
                &&& reply.score == search_result(old(board)@, depth as nat, maximizes(side)).1
                &&& reply.outcome == outcome_of(final(board)@)
            },
            None => {
                &&& final(board)@ == old(board)@
                &&& played == Err::<Reply, GameError>(GameError::ExhaustedSearch)
            },
        },
{
    let maximizing = match side {
        Side::X => true,
        Side::O => false,
    };
    let (best, score) = board.search(depth, maximizing);
    proof {
        lemma_search_names_a_move(board@, depth as nat, maximizing);
        lemma_search_names_open_column(board@, depth as nat, maximizing);
    }
    match best {
        Some(col) => {
            board.drop(col, side);
            Ok(Reply { slot: col + 1, score, outcome: board.outcome() })
        },
        None => Err(GameError::ExhaustedSearch),
    }
}

} // verus!
