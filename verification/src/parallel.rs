//! The fan-out of a search over the worker threads.

use vstd::prelude::*;
use rayon::iter::{IntoParallelRefIterator, ParallelIterator};

verus! {

/// Applies `score` to every move, on the threads of the global rayon pool,
/// and collects what it returns in the order of the moves.
///
/// Calls rayon's `par_iter`, `map` and `collect` on the moves. It is taken
/// on trust that `collect` into a `Vec` keeps the order of the items and that
/// `map` hands each item to `score` exactly once, so that the result has one
/// entry for each move, in the moves' order, and each entry is something that
/// `score` may return for that move.
#[verifier::external_body]
pub(crate) fn parallel_map<F>(moves: &Vec<usize>, score: F) -> (scored: Vec<(usize, i32)>) where
    F: Fn(&usize) -> (usize, i32) + Sync + Send,

    requires
        forall|i: int| 0 <= i < moves.len() ==> call_requires(score, (&#[trigger] moves[i],)),
    ensures
        scored.len() == moves.len(),
        forall|i: int|
            0 <= i < moves.len() ==> call_ensures(score, (&moves[i],), #[trigger] scored[i]),
{
    moves.par_iter().map(score).collect()
}

} // verus!
