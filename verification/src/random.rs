//! The random choice of a fallback move.

use vstd::prelude::*;
use rand::seq::SliceRandom;

verus! {

/// One of `moves`, chosen at random; `None` where there is none to choose.
///
/// Calls `rand::seq::SliceRandom::choose` on the moves, with the generator
/// that `rand::thread_rng` hands out. Of the choice it is only taken on
/// trust that it is one of the moves, and that it is made whenever there is
/// a move: which one comes back is left open, and may differ from call to
/// call.
#[verifier::external_body]
pub(crate) fn random_move(moves: &Vec<usize>) -> (choice: Option<usize>)
    ensures
        choice is None <==> moves.len() == 0,
        choice is Some ==> moves@.contains(choice.unwrap()),
{
    moves.choose(&mut rand::thread_rng()).copied()
}

} // verus!
