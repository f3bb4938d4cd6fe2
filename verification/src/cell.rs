//! The contents of a cell and the two sides of the game.

use vstd::prelude::*;

verus! {

/// What one cell of the grid holds.
#[derive(Clone, Copy, PartialEq, Eq, Structural, Debug)]
pub enum Cell {
    Empty,
    PlayerX,
    PlayerO,
}

/// One of the two players. `X` is the side whose advantage the evaluation
/// counts as positive, and so the side that a maximizing search moves for.
#[derive(Clone, Copy, PartialEq, Eq, Structural, Debug)]
pub enum Side {
    X,
    O,
}

/// The piece that `side` puts on the board.
pub open spec fn piece_of(side: Side) -> Cell {
    match side {
        Side::X => Cell::PlayerX,
        Side::O => Cell::PlayerO,
    }
}

/// The side that moves at a maximizing (`true`) or minimizing (`false`) ply.
pub open spec fn mover(maximizing: bool) -> Side {
    if maximizing {
        Side::X
    } else {
        Side::O
    }
}

impl Side {
    /// The piece of this side.
    pub fn piece(self) -> (cell: Cell)
        ensures
            cell == piece_of(self),
            cell != Cell::Empty,
    {
        match self {
            Side::X => Cell::PlayerX,
            Side::O => Cell::PlayerO,
        }
    }

    /// The side to move at a maximizing or minimizing ply.
    pub fn to_move(maximizing: bool) -> (side: Side)
        ensures
            side == mover(maximizing),
    {
        if maximizing {
            Side::X
        } else {
            Side::O
        }
    }
}

} // verus!
