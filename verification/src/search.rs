//! Depth-limited minimax: what the search is to return, as a function of the
//! position, and the choice of the best among scored moves.

use vstd::prelude::*;
use crate::board::Board;
use crate::cell::{Cell, Side, mover, piece_of};
use crate::evaluate::{evaluate_cells, lemma_evaluate_bound};
use crate::grid::{column_open, drop_cells, open_columns};
use crate::parallel::parallel_map;
use crate::random::random_move;
use crate::terminal::{is_terminal_cells, lemma_full_iff_no_open_column};

verus! {

/// The score from which the choice of a move starts: the worst that the
/// side to move could think of.
pub open spec fn worst_score(maximizing: bool) -> int {
    if maximizing {
        i32::MIN as int
    } else {
        i32::MAX as int
    }
}

/// Score `new` is strictly better than `old` for the side to move: greater
/// for the maximizing side, smaller for the minimizing one.
pub open spec fn improves(new: int, old: int, maximizing: bool) -> bool {
    if maximizing {
        new > old
    } else {
        new < old
    }
}

/// Among pairs of a move and its score, the pair with the best score for the
/// side to move; where several moves share the best score, the first of them.
/// `None` where there is no pair.
pub open spec fn best_of(candidates: Seq<(int, int)>, maximizing: bool) -> Option<(int, int)>
    decreases candidates.len(),
{
    if candidates.len() == 0 {
        None
    } else {
        match best_of(candidates.drop_last(), maximizing) {
            None => Some(candidates.last()),
            Some(best) => if improves(candidates.last().1, best.1, maximizing) {
                Some(candidates.last())
            } else {
                Some(best)
            },
        }
    }
}

/// The choice among scored moves that starts from `fallback` with the worst
/// score and lets only a strictly better score replace what was chosen.
pub open spec fn pick(fallback: int, candidates: Seq<(int, int)>, maximizing: bool) -> (int, int) {
    match best_of(candidates, maximizing) {
        Some(best) => if improves(best.1, worst_score(maximizing), maximizing) {
            best
        } else {
            (fallback, worst_score(maximizing))
        },
        None => (fallback, worst_score(maximizing)),
    }
}

/// What a search of `depth` plies returns on `cells`: the move to make, if
/// the search looked at any, and the score of the position.
///
/// At depth 0 and when the game is over the position is scored as it
/// stands, and no move is named. Otherwise each legal move is scored by a
/// search of the position that it leads to, one ply less deep and with the
/// other side to move, and the move with the best score for the side to move
/// is named, the leftmost of them where several share it. Were there no legal
/// move, the position would be scored as it stands.
pub open spec fn search_result(cells: Seq<Cell>, depth: nat, maximizing: bool) -> (Option<int>, int)
    decreases depth, 2int, 0int,
{
    if depth == 0 || is_terminal_cells(cells) {
        (None, evaluate_cells(cells))
    } else {
        match best_of(
            candidates(cells, depth, maximizing, open_columns(cells).len() as int),
            maximizing,
        ) {
            Some(best) => (Some(best.0), best.1),
            None => (None, evaluate_cells(cells)),
        }
    }
}

/// The first `n` legal moves of a search of `depth` plies, each with the
/// score of the position that it leads to.
pub open spec fn candidates(cells: Seq<Cell>, depth: nat, maximizing: bool, n: int) -> Seq<
    (int, int),
>
    decreases depth, 1int, n,
{
    if n <= 0 || depth == 0 {
        Seq::empty()
    } else {
        candidates(cells, depth, maximizing, n - 1).push(
            (
                open_columns(cells)[n - 1],
                child_value(cells, (depth - 1) as nat, maximizing, open_columns(cells)[n - 1]),
            ),
        )
    }
}

/// The score of the position that the side to move reaches by dropping its
/// piece into `col`, found by a search of `remaining` plies with the other
/// side to move.
pub open spec fn child_value(cells: Seq<Cell>, remaining: nat, maximizing: bool, col: int) -> int
    decreases remaining, 3int, 0int,
{
    search_result(drop_cells(cells, col, piece_of(mover(maximizing))), remaining, !maximizing).1
}

/// Pairs of a move and a score as unbounded integers.
pub open spec fn scored_moves(scored: Seq<(usize, i32)>) -> Seq<(int, int)> {
    scored.map_values(|pair: (usize, i32)| (pair.0 as int, pair.1 as int))
}

/// The best of one or more candidates is one of them; no candidate improves
/// on it, and it improves on every candidate before it.
pub proof fn lemma_best_of(candidates: Seq<(int, int)>, maximizing: bool)
    requires
        candidates.len() > 0,
    ensures
        best_of(candidates, maximizing) is Some,
        exists|k: int|
            0 <= k < candidates.len() && #[trigger] candidates[k] == best_of(
                candidates,
                maximizing,
            ).unwrap() && forall|j: int|
                0 <= j < k ==> improves(
                    candidates[k].1,
                    (#[trigger] candidates[j]).1,
                    maximizing,
                ),
        forall|j: int|
            0 <= j < candidates.len() ==> !improves(
                (#[trigger] candidates[j]).1,
                best_of(candidates, maximizing).unwrap().1,
                maximizing,
            ),
    decreases candidates.len(),
{
    let earlier = candidates.drop_last();
    let last = candidates.last();
    if earlier.len() == 0 {
        assert(best_of(earlier, maximizing) is None);
        assert(candidates[0] == last);
    } else {
        lemma_best_of(earlier, maximizing);
        let before = best_of(earlier, maximizing).unwrap();
        let k = choose|k: int|
            0 <= k < earlier.len() && #[trigger] earlier[k] == before && forall|j: int|
                0 <= j < k ==> improves(earlier[k].1, (#[trigger] earlier[j]).1, maximizing);
        if improves(last.1, before.1, maximizing) {
            let n = candidates.len() - 1;
            assert(candidates[n] == last);
            assert forall|j: int| 0 <= j < n implies improves(
                candidates[n].1,
                (#[trigger] candidates[j]).1,
                maximizing,
            ) by {
                assert(earlier[j] == candidates[j]);
                assert(!improves(earlier[j].1, before.1, maximizing));
            }
            assert forall|j: int| 0 <= j < candidates.len() implies !improves(
                (#[trigger] candidates[j]).1,
                last.1,
                maximizing,
            ) by {
                if j < n {
                    assert(earlier[j] == candidates[j]);
                    assert(!improves(earlier[j].1, before.1, maximizing));
                }
            }
        } else {
            assert(candidates[k] == before);
            assert forall|j: int| 0 <= j < k implies improves(
                candidates[k].1,
                (#[trigger] candidates[j]).1,
                maximizing,
            ) by {
                assert(earlier[j] == candidates[j]);
            }
            assert forall|j: int| 0 <= j < candidates.len() implies !improves(
                (#[trigger] candidates[j]).1,
                before.1,
                maximizing,
            ) by {
                if j < candidates.len() - 1 {
                    assert(earlier[j] == candidates[j]);
                }
            }
        }
    }
}

/// The candidates of a search are its legal moves in their order, each
/// paired with the score of the position that it leads to.
pub proof fn lemma_candidates(cells: Seq<Cell>, depth: nat, maximizing: bool, n: int)
    requires
        depth > 0,
        0 <= n <= open_columns(cells).len(),
    ensures
        candidates(cells, depth, maximizing, n).len() == n,
        forall|i: int|
            0 <= i < n ==> #[trigger] candidates(cells, depth, maximizing, n)[i] == (
                open_columns(cells)[i],
                child_value(cells, (depth - 1) as nat, maximizing, open_columns(cells)[i]),
            ),
    decreases n,
{
    if n > 0 {
        lemma_candidates(cells, depth, maximizing, n - 1);
    }
}

/// A search never returns a score that no position has: it stays within
/// 69 windows of 1000 each.
pub proof fn lemma_search_bound(cells: Seq<Cell>, depth: nat, maximizing: bool)
    ensures
        -69000 <= search_result(cells, depth, maximizing).1 <= 69000,
    decreases depth,
{
    lemma_evaluate_bound(cells);
    if depth > 0 && !is_terminal_cells(cells) {
        let n = open_columns(cells).len() as int;
        let scored = candidates(cells, depth, maximizing, n);
        lemma_candidates(cells, depth, maximizing, n);
        if n > 0 {
            lemma_best_of(scored, maximizing);
            let best = best_of(scored, maximizing).unwrap();
            let k = choose|k: int| 0 <= k < scored.len() && #[trigger] scored[k] == best;
            lemma_search_bound(
                drop_cells(cells, open_columns(cells)[k], piece_of(mover(maximizing))),
                (depth - 1) as nat,
                !maximizing,
            );
        }
    }
}

/// What a search hands back, with the move and the score as unbounded
/// integers.
pub open spec fn found_move(found: (Option<usize>, i32)) -> (Option<int>, int) {
    (
        match found.0 {
            Some(col) => Some(col as int),
            None => None,
        },
        found.1 as int,
    )
}

/// Chooses among scored moves. The choice starts from `fallback` with the
/// worst score that the side to move could think of, goes through the
/// candidates in their order and lets only a strictly better score replace
/// what was chosen: the first of the best candidates wins, and `fallback` is
/// returned only where no candidate beats the worst score.
pub fn select_best(fallback: usize, candidates: &Vec<(usize, i32)>, maximizing: bool) -> (best: (
    usize,
    i32,
))
    ensures
        (best.0 as int, best.1 as int) == pick(
            fallback as int,
            scored_moves(candidates@),
            maximizing,
        ),
{
    let mut best: (usize, i32) = (
        fallback,
        if maximizing {
            i32::MIN
        } else {
            i32::MAX
        },
    );
    let mut i: usize = 0;
    while i < candidates.len()
        invariant
            i <= candidates.len(),
            (best.0 as int, best.1 as int) == pick(
                fallback as int,
                scored_moves(candidates@.take(i as int)),
                maximizing,
            ),
        decreases candidates.len() - i,
    {
        let candidate = candidates[i];
        proof {
            let before = scored_moves(candidates@.take(i as int));
            let now = scored_moves(candidates@.take(i + 1));
            assert(now.drop_last() =~= before);
            assert(now.last() == (candidate.0 as int, candidate.1 as int));
        }
        if (maximizing && candidate.1 > best.1) || (!maximizing && candidate.1 < best.1) {
            best = candidate;
        }
        i += 1;
    }
    assert(candidates@.take(candidates.len() as int) =~= candidates@);
    best
}

impl Board {
    /// Scores the move into `col` for the side to move: drops its piece on
    /// a copy of the board and searches the position reached, with
    /// `remaining` plies and the other side to move.
    pub fn score_move(&self, col: usize, remaining: u32, maximizing: bool) -> (scored: (usize, i32))
        ensures
            scored.0 == col,
            scored.1 == child_value(self@, remaining as nat, maximizing, col as int),
        decreases remaining, 1int,
    {
        let mut next = self.clone();
        next.drop(col, Side::to_move(maximizing));
        (col, next.search(remaining, !maximizing).1)
    }

    /// Minimax search of `depth` plies that scores the legal moves of every
    /// position in parallel.
    ///
    /// Returns the move to make and the score of the position. At depth 0
    /// and when the game is over no move is named and the score is that of
    /// the position as it stands. Otherwise the maximizing side plays `X`
    /// and gets the move with the greatest score, the minimizing side plays
    /// `O` and gets the move with the smallest score; among moves with the
    /// same score the leftmost column wins.
    pub fn search(&self, depth: u32, maximizing: bool) -> (found: (Option<usize>, i32))
        ensures
            found_move(found) == search_result(self@, depth as nat, maximizing),
            depth == 0 ==> found.0 is None && found.1 == evaluate_cells(self@),
        decreases depth, 0int,
    {
        if depth == 0 || self.is_terminal() {
            return (None, self.evaluate());
        }
        let moves = self.legal_moves();
        let fallback = match random_move(&moves) {
            Some(col) => col,
            None => {
                proof {
                    lemma_no_move_is_terminal(self@);
                }
                return (None, self.evaluate());
            },
        };
        let score = |col: &usize| -> (scored: (usize, i32))
            ensures
                scored.0 == *col,
                scored.1 == child_value(self@, (depth - 1) as nat, maximizing, *col as int),
            { self.score_move(*col, depth - 1, maximizing) };
        let scored = parallel_map(&moves, score);
        proof {
            lemma_candidates(self@, depth as nat, maximizing, moves.len() as int);
            assert(scored_moves(scored@) =~= candidates(
                self@,
                depth as nat,
                maximizing,
                moves.len() as int,
            )) by {
                assert forall|i: int| 0 <= i < moves.len() implies scored_moves(scored@)[i]
                    == candidates(self@, depth as nat, maximizing, moves.len() as int)[i] by {
                    assert(moves@.map_values(|col: usize| col as int)[i] == moves[i]);
                    assert(call_ensures(score, (&moves[i],), scored[i]));
                }
            }
            lemma_pick_ignores_fallback(self@, depth as nat, maximizing, fallback as int);
        }
        let best = select_best(fallback, &scored, maximizing);
        (Some(best.0), best.1)
    }

    /// Scores the move into `col` for the side to move: drops its piece on
    /// a copy of the board and searches the position reached, with
    /// `remaining` plies and the other side to move, one move after the
    /// other.
    pub fn score_move_sequential(&self, col: usize, remaining: u32, maximizing: bool) -> (scored: (
        usize,
        i32,
    ))
        ensures
            scored.0 == col,
            scored.1 == child_value(self@, remaining as nat, maximizing, col as int),
        decreases remaining, 1int,
    {
        let mut next = self.clone();
        next.drop(col, Side::to_move(maximizing));
        (col, next.search_sequential(remaining, !maximizing).1)
    }

    /// Minimax search of `depth` plies that scores the legal moves one after
    /// the other.
    ///
    /// Returns the move to make and the score of the position. At depth 0
    /// and when the game is over no move is named and the score is that of
    /// the position as it stands. Otherwise the maximizing side plays `X`
    /// and gets the move with the greatest score, the minimizing side plays
    /// `O` and gets the move with the smallest score; among moves with the
    /// same score the leftmost column wins.
    pub fn search_sequential(&self, depth: u32, maximizing: bool) -> (found: (Option<usize>, i32))
        ensures
            found_move(found) == search_result(self@, depth as nat, maximizing),
            depth == 0 ==> found.0 is None && found.1 == evaluate_cells(self@),
        decreases depth, 0int,
    {
        if depth == 0 || self.is_terminal() {
            return (None, self.evaluate());
        }
        let moves = self.legal_moves();
        let fallback = match random_move(&moves) {
            Some(col) => col,
            None => {
                proof {
                    lemma_no_move_is_terminal(self@);
                }
                return (None, self.evaluate());
            },
        };
        let mut scored: Vec<(usize, i32)> = Vec::new();
        let mut i: usize = 0;
        while i < moves.len()
            invariant
                depth > 0,
                i <= moves.len(),
                moves@.map_values(|col: usize| col as int) == open_columns(self@),
                scored_moves(scored@) == candidates(self@, depth as nat, maximizing, i as int),
            decreases moves.len() - i,
        {
            let ghost before = scored@;
            let one = self.score_move_sequential(moves[i], depth - 1, maximizing);
            scored.push(one);
            proof {
                assert(moves@.map_values(|col: usize| col as int)[i as int] == moves[i as int]);
                assert(scored_moves(scored@) =~= scored_moves(before).push(
                    (one.0 as int, one.1 as int),
                ));
            }
            i += 1;
        }
        let best = select_best(fallback, &scored, maximizing);
        proof {
            lemma_pick_ignores_fallback(self@, depth as nat, maximizing, fallback as int);
        }
        (Some(best.0), best.1)
    }
}

/// Where no column is open the game is over.
pub proof fn lemma_no_move_is_terminal(cells: Seq<Cell>)
    requires
        open_columns(cells).len() == 0,
    ensures
        is_terminal_cells(cells),
{
    lemma_full_iff_no_open_column(cells);
    assert forall|col: int| !column_open(cells, col) by {
        if column_open(cells, col) {
            crate::grid::lemma_open_columns_below(cells, 7);
            assert(open_columns(cells).contains(col));
        }
    }
}

/// The fallback move never shows in what a search returns: where there is a
/// legal move, the choice among the scored moves is the best of them,
/// whatever the fallback is.
pub proof fn lemma_pick_ignores_fallback(
    cells: Seq<Cell>,
    depth: nat,
    maximizing: bool,
    fallback: int,
)
    requires
        depth > 0,
        !is_terminal_cells(cells),
        open_columns(cells).len() > 0,
    ensures
        search_result(cells, depth, maximizing) == (
            Some(
                pick(
                    fallback,
                    candidates(cells, depth, maximizing, open_columns(cells).len() as int),
                    maximizing,
                ).0,
            ),
            pick(
                fallback,
                candidates(cells, depth, maximizing, open_columns(cells).len() as int),
                maximizing,
            ).1,
        ),
{
    let n = open_columns(cells).len() as int;
    let scored = candidates(cells, depth, maximizing, n);
    lemma_candidates(cells, depth, maximizing, n);
    lemma_best_of(scored, maximizing);
    lemma_search_bound(cells, depth, maximizing);
}

/// At depth 0 a search names no move and scores the position as it stands.
pub proof fn lemma_depth_zero(cells: Seq<Cell>, maximizing: bool)
    ensures
        search_result(cells, 0, maximizing) == (None::<int>, evaluate_cells(cells)),
{
}

/// While the game is on, a search of one ply or more names a move.
pub proof fn lemma_search_names_a_move(cells: Seq<Cell>, depth: nat, maximizing: bool)
    ensures
        search_result(cells, depth, maximizing).0 is Some <==> depth > 0 && !is_terminal_cells(
            cells,
        ),
{
    if depth > 0 && !is_terminal_cells(cells) {
        if open_columns(cells).len() == 0 {
            lemma_no_move_is_terminal(cells);
        }
        let n = open_columns(cells).len() as int;
        lemma_candidates(cells, depth, maximizing, n);
        lemma_best_of(candidates(cells, depth, maximizing, n), maximizing);
    }
}

/// The move that a search names is a legal one.
pub proof fn lemma_search_names_open_column(cells: Seq<Cell>, depth: nat, maximizing: bool)
    ensures
        search_result(cells, depth, maximizing).0 is Some ==> 0 <= search_result(
            cells,
            depth,
            maximizing,
        ).0.unwrap() < 7 && column_open(cells, search_result(cells, depth, maximizing).0.unwrap()),
{
    lemma_search_names_a_move(cells, depth, maximizing);
    if depth > 0 && !is_terminal_cells(cells) {
        lemma_search_is_optimal(cells, depth, maximizing);
    }
}

/// What minimax promises. While the game is on, a search of one ply or more
/// names an open column, and the score that it returns is the score of the
/// position that this move leads to. No legal move leads to a position with
/// a better score for the side to move, and every legal move further left
/// leads to one with a worse score.
pub proof fn lemma_search_is_optimal(cells: Seq<Cell>, depth: nat, maximizing: bool)
    requires
        depth > 0,
        !is_terminal_cells(cells),
    ensures
        search_result(cells, depth, maximizing).0 is Some,
        ({
            let col = search_result(cells, depth, maximizing).0.unwrap();
            let score = search_result(cells, depth, maximizing).1;
            &&& 0 <= col < 7
            &&& column_open(cells, col)
            &&& score == child_value(cells, (depth - 1) as nat, maximizing, col)
            &&& forall|other: int|
                column_open(cells, other) ==> !improves(
                    #[trigger] child_value(cells, (depth - 1) as nat, maximizing, other),
                    score,
                    maximizing,
                )
            &&& forall|other: int|
                column_open(cells, other) && other < col ==> improves(
                    score,
                    #[trigger] child_value(cells, (depth - 1) as nat, maximizing, other),
                    maximizing,
                )
        }),
{
    lemma_search_names_a_move(cells, depth, maximizing);
    let moves = open_columns(cells);
    let n = moves.len() as int;
    let scored = candidates(cells, depth, maximizing, n);
    lemma_candidates(cells, depth, maximizing, n);
    lemma_best_of(scored, maximizing);
    crate::grid::lemma_open_columns_below(cells, 7);
    let best = best_of(scored, maximizing).unwrap();
    let k = choose|k: int|
        0 <= k < scored.len() && #[trigger] scored[k] == best && forall|j: int|
            0 <= j < k ==> improves(scored[k].1, (#[trigger] scored[j]).1, maximizing);
    assert(best.0 == moves[k]);
    assert forall|other: int| column_open(cells, other) implies !improves(
        #[trigger] child_value(cells, (depth - 1) as nat, maximizing, other),
        best.1,
        maximizing,
    ) by {
        let j = choose|j: int| 0 <= j < moves.len() && moves[j] == other;
        assert(scored[j].1 == child_value(cells, (depth - 1) as nat, maximizing, other));
    }
    assert forall|other: int| column_open(cells, other) && other < best.0 implies improves(
        best.1,
        #[trigger] child_value(cells, (depth - 1) as nat, maximizing, other),
        maximizing,
    ) by {
        let j = choose|j: int| 0 <= j < moves.len() && moves[j] == other;
        assert(scored[j].1 == child_value(cells, (depth - 1) as nat, maximizing, other));
        if j >= k {
            assert(moves[k] <= moves[j]);
        }
    }
}

/// A search of one ply scores the position by the move that it names: the
/// score is the evaluation of the position that the move leads to.
pub proof fn lemma_one_ply(cells: Seq<Cell>, maximizing: bool)
    requires
        !is_terminal_cells(cells),
    ensures
        search_result(cells, 1, maximizing).0 is Some,
        search_result(cells, 1, maximizing).1 == evaluate_cells(
            drop_cells(
                cells,
                search_result(cells, 1, maximizing).0.unwrap(),
                piece_of(mover(maximizing)),
            ),
        ),
{
    lemma_search_is_optimal(cells, 1, maximizing);
}

/// The search that scores the moves in parallel and the one that scores them
/// one after the other agree: on one position, depth and side to move they
/// return the same score, and the same move.
pub proof fn lemma_searches_agree(
    cells: Seq<Cell>,
    depth: nat,
    maximizing: bool,
    parallel: (Option<usize>, i32),
    sequential: (Option<usize>, i32),
)
    requires
        found_move(parallel) == search_result(cells, depth, maximizing),
        found_move(sequential) == search_result(cells, depth, maximizing),
    ensures
        parallel.1 == sequential.1,
        parallel.0 == sequential.0,
{
}

} // verus!
