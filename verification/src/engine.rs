//! The search engine: a search depth, a pruning mode, and an owned
//! evaluator network.
//!
//! The evaluator network itself computes in floating point, which stays
//! outside the verified core: callers obtain the leaf encodings of a
//! position's expansion (`search_tree`, `leaf_features`), score them with
//! the network, and hand the raw scores back to `evaluate_board` and
//! `best_move` here. Both search modes provably return the same value on
//! the same position and scores.

use vstd::prelude::*;
use crate::bridge::{
    board_leaf_count,
    board_value,
    lemma_reflects_leaf_count,
    lemma_scored_value,
};
use crate::errors::EngineError;
use crate::feature::NUM_FEATURES;
use crate::search::{
    alphabeta_value,
    lemma_nm_bounded,
    negamax_value,
    nm,
    wf_tree,
    ScoreTree,
    SCORE_INF,
};
use crate::rules::{apply_move, legal_moves, spec_apply, spec_moves};
use crate::tree::{expand, pt_wf, reflects, with_scores, PositionTree};

verus! {

/// The number of units in the evaluator network's single hidden layer.
pub const HIDDEN_UNITS: usize = 32;

/// How the negamax search treats provably irrelevant subtrees: it either
/// explores them anyway or prunes them with an alpha-beta window.
#[derive(Clone, Copy, Debug, PartialEq, Eq, Structural)]
pub enum PruningType {
    NoPruning,
    AlphaBeta,
}

#[verifier::external_type_specification]
#[verifier::external_body]
pub struct ExFeedForward(neuroflow::FeedForward);

/// The architecture of an evaluator network: the neuron counts of its
/// layers, input first, as handed to its constructor. With every count
/// positive, the layer widths of the built network determine it.
pub uninterp spec fn spec_net_arch(nn: neuroflow::FeedForward) -> Seq<int>;

/// Relies on neuroflow::FeedForward::new, which builds an untrained
/// feed-forward network with one layer per architecture entry, the entry
/// giving the layer's neuron count. Its initial weights are random, so
/// nothing is promised of them.
#[verifier::external_body]
fn new_network(architecture: &Vec<i32>) -> (r: neuroflow::FeedForward)
    requires
        forall|i: int| 0 <= i < architecture@.len() ==> #[trigger] architecture@[i] >= 1,
    ensures
        spec_net_arch(r) == architecture@.map_values(|x: i32| x as int),
{
    neuroflow::FeedForward::new(architecture.as_slice())
}

/// The index of the move a search at the root picks from the child values:
/// the first position of the strictly greatest value.
pub open spec fn best_index(vals: Seq<i64>) -> int
    decreases vals.len(),
{
    if vals.len() <= 1 {
        0
    } else {
        let j = best_index(vals.drop_last());
        if vals.last() > vals[j] {
            vals.len() - 1
        } else {
            j
        }
    }
}

/// The picked index is always in range.
pub proof fn lemma_best_index_in_range(vals: Seq<i64>)
    requires
        vals.len() >= 1,
    ensures
        0 <= best_index(vals) < vals.len(),
    decreases vals.len(),
{
    if vals.len() > 1 {
        lemma_best_index_in_range(vals.drop_last());
    }
}

/// The index of the first maximum of a sequence of values.
pub open spec fn arg_first_max(vals: Seq<int>) -> int
    decreases vals.len(),
{
    if vals.len() <= 1 {
        0
    } else {
        let j = arg_first_max(vals.drop_last());
        if vals.last() > vals[j] {
            vals.len() - 1
        } else {
            j
        }
    }
}

/// Sequences that are equal value for value have the same first maximum.
proof fn lemma_arg_first_max_map(vals: Seq<i64>, rv: Seq<int>)
    requires
        vals.len() == rv.len(),
        forall|j: int| 0 <= j < vals.len() ==> #[trigger] vals[j] as int == rv[j],
    ensures
        best_index(vals) == arg_first_max(rv),
    decreases vals.len(),
{
    if vals.len() > 1 {
        assert forall|j: int| 0 <= j < vals.drop_last().len()
            implies #[trigger] vals.drop_last()[j] as int == rv.drop_last()[j] by {
            assert(vals[j] as int == rv[j]);
        }
        lemma_arg_first_max_map(vals.drop_last(), rv.drop_last());
        lemma_best_index_in_range(vals.drop_last());
    }
}

/// Whether one raw score per leaf was supplied for every child of a
/// board, each child expanded to depth `d`.
pub open spec fn scores_fit(b: chess::Board, d: nat, scores: Seq<Vec<i32>>) -> bool {
    &&& scores.len() == spec_moves(b).len()
    &&& (forall|i: int| 0 <= i < scores.len() ==> (#[trigger] scores[i])@.len()
        == board_leaf_count(spec_apply(b, spec_moves(b)[i]), d))
}

/// The depth-`d` search values of a board's children, child `i` scored by
/// `scores[i]`.
pub open spec fn root_values(b: chess::Board, d: nat, scores: Seq<Vec<i32>>) -> Seq<int> {
    Seq::new(
        spec_moves(b).len(),
        |i: int| board_value(spec_apply(b, spec_moves(b)[i]), d, scores[i]@, 0),
    )
}

/// On a position with exactly one legal move, the search picks that move
/// whatever the depth, the pruning mode, or the evaluator's scores: the
/// picked index is 0, so `best_move` returns the single legal move.
pub proof fn lemma_single_legal_move(b: chess::Board, d: nat, scores: Seq<Vec<i32>>)
    requires
        spec_moves(b).len() == 1,
    ensures
        arg_first_max(root_values(b, d, scores)) == 0,
{
}

/// A move-search engine: a fixed search depth in plies, a fixed pruning
/// mode, and exclusive ownership of one evaluator network's parameters.
pub struct Engine {
    pub search_depth: u8,
    pub pruning_type: PruningType,
    pub eval_nn: neuroflow::FeedForward,
}

impl Engine {
    /// A new engine with the given configuration and an untrained evaluator
    /// network of the fixed topology: one input per feature, one hidden
    /// layer, one output.
    pub fn new(search_depth: u8, pruning_type: PruningType) -> (e: Engine)
        ensures
            e.search_depth == search_depth,
            e.pruning_type == pruning_type,
            spec_net_arch(e.eval_nn) == seq![NUM_FEATURES as int, HIDDEN_UNITS as int, 1int],
    {
        let mut architecture: Vec<i32> = Vec::new();
        architecture.push(NUM_FEATURES as i32);
        architecture.push(HIDDEN_UNITS as i32);
        architecture.push(1);
        let nn = new_network(&architecture);
        proof {
            assert(architecture@.map_values(|x: i32| x as int) =~= seq![
                NUM_FEATURES as int,
                HIDDEN_UNITS as int,
                1int,
            ]);
        }
        Engine { search_depth, pruning_type, eval_nn: nn }
    }

    /// The depth-limited expansion of a position, at this engine's
    /// configured search depth.
    pub fn search_tree(&self, board: &chess::Board) -> (t: PositionTree)
        ensures
            reflects(t, *board, self.search_depth as nat),
            pt_wf(t),
    {
        expand(board, self.search_depth)
    }

    /// The negamax value of a scored expansion of a board. Whichever
    /// pruning mode the engine is configured with, the result is exactly
    /// the plain negamax value of the tree: pruning only discards subtrees
    /// that cannot change the answer.
    pub fn evaluate_tree(&self, t: &ScoreTree) -> (v: i64)
        requires
            wf_tree(*t),
        ensures
            v as int == nm(*t),
    {
        match self.pruning_type {
            PruningType::NoPruning => negamax_value(t),
            PruningType::AlphaBeta => {
                proof {
                    lemma_nm_bounded(*t);
                }
                alphabeta_value(t, -SCORE_INF, SCORE_INF)
            },
        }
    }

    /// The full search of a position: expands the board to the engine's
    /// depth, folds in the evaluator's raw leaf scores (supplied in
    /// depth-first leaf order), and searches the scored tree under the
    /// configured pruning mode. The result is pinned by the board, the
    /// depth and the scores alone — the same under either pruning mode —
    /// and the call succeeds exactly when one score per leaf was supplied.
    pub fn evaluate_board(&self, board: &chess::Board, raw_scores: &Vec<i32>) -> (r: Result<
        i64,
        EngineError,
    >)
        ensures
            raw_scores@.len() == board_leaf_count(*board, self.search_depth as nat) ==> (r
                matches Ok(v) && v as int == board_value(
                *board,
                self.search_depth as nat,
                raw_scores@,
                0,
            )),
            raw_scores@.len() != board_leaf_count(*board, self.search_depth as nat) ==> (r
                matches Err(e) && e == EngineError::InvariantViolation),
    {
        let t = expand(board, self.search_depth);
        proof {
            lemma_reflects_leaf_count(t, *board, self.search_depth as nat);
        }
        match with_scores(&t, raw_scores) {
            Option::Some(st) => {
                proof {
                    lemma_scored_value(
                        t,
                        st,
                        *board,
                        self.search_depth as nat,
                        raw_scores@,
                        0,
                    );
                }
                Result::Ok(self.evaluate_tree(&st))
            },
            Option::None => Result::Err(EngineError::InvariantViolation),
        }
    }

    /// The engine's move for a position: every legal move's child position
    /// is searched to the configured depth with the supplied raw leaf
    /// scores (one vector per child, in move order), and the first move
    /// with the strictly greatest value wins. Fails with `NoLegalMoves`
    /// exactly on a position without legal moves, and with
    /// `InvariantViolation` when the scores do not fit the expansions.
    pub fn best_move(&self, board: &chess::Board, child_scores: &Vec<Vec<i32>>) -> (r: Result<
        chess::ChessMove,
        EngineError,
    >)
        ensures
            spec_moves(*board).len() == 0 <==> (r matches Err(e) && e
                == EngineError::NoLegalMoves),
            spec_moves(*board).len() > 0 && scores_fit(
                *board,
                self.search_depth as nat,
                child_scores@,
            ) ==> (r matches Ok(m) && m == spec_moves(*board)[arg_first_max(
                root_values(*board, self.search_depth as nat, child_scores@),
            )]),
            spec_moves(*board).len() > 0 && !scores_fit(
                *board,
                self.search_depth as nat,
                child_scores@,
            ) ==> (r matches Err(e) && e == EngineError::InvariantViolation),
    {
        let moves = legal_moves(board);
        if moves.len() == 0 {
            return Result::Err(EngineError::NoLegalMoves);
        }
        if child_scores.len() != moves.len() {
            return Result::Err(EngineError::InvariantViolation);
        }
        let ghost d = self.search_depth as nat;
        let mut values: Vec<i64> = Vec::new();
        let mut i: usize = 0;
        while i < moves.len()
            invariant
                moves@ == spec_moves(*board),
                moves@.len() >= 1,
                child_scores@.len() == moves@.len(),
                d == self.search_depth as nat,
                i <= moves@.len(),
                values@.len() == i,
                forall|j: int| 0 <= j < i ==> (#[trigger] child_scores@[j])@.len()
                    == board_leaf_count(spec_apply(*board, spec_moves(*board)[j]), d),
                forall|j: int| 0 <= j < i ==> #[trigger] values@[j] as int == root_values(
                    *board,
                    d,
                    child_scores@,
                )[j],
            decreases moves@.len() - i,
        {
            proof {
                assert(spec_moves(*board)[i as int] == moves@[i as int]);
            }
            let child = apply_move(board, &moves[i]);
            match self.evaluate_board(&child, &child_scores[i]) {
                Result::Ok(v) => {
                    values.push(v);
                },
                Result::Err(e) => {
                    return Result::Err(e);
                },
            }
            i = i + 1;
        }
        proof {
            lemma_arg_first_max_map(values@, root_values(*board, d, child_scores@));
        }
        self.best_move_from_values(&moves, &values)
    }

    /// The best move at the root: the moves of the position in the rules
    /// engine's order, each child position already searched to the
    /// engine's full depth, and the move with the strictly greatest value
    /// picked, the first winning ties. Fails exactly when there is no
    /// legal move at all.
    pub fn best_move_from_values(&self, moves: &Vec<chess::ChessMove>, values: &Vec<i64>) -> (r: Result<
        chess::ChessMove,
        EngineError,
    >)
        requires
            values@.len() == moves@.len(),
        ensures
            moves@.len() == 0 <==> (r matches Err(e) && e == EngineError::NoLegalMoves),
            moves@.len() > 0 ==> (r matches Ok(m) && m == moves@[best_index(values@)]),
    {
        if moves.len() == 0 {
            return Result::Err(EngineError::NoLegalMoves);
        }
        let mut bi: usize = 0;
        let mut i: usize = 1;
        while i < values.len()
            invariant
                values@.len() == moves@.len(),
                values@.len() >= 1,
                1 <= i <= values@.len(),
                bi < i,
                bi as int == best_index(values@.take(i as int)),
            decreases values@.len() - i,
        {
            proof {
                let pre = values@.take(i as int);
                let cur = values@.take(i as int + 1);
                assert(cur.drop_last() =~= pre);
                assert(cur.last() == values@[i as int]);
                lemma_best_index_in_range(pre);
                assert(cur[best_index(pre)] == pre[best_index(pre)]);
            }
            if values[i] > values[bi] {
                bi = i;
            }
            i = i + 1;
        }
        proof {
            assert(values@.take(values@.len() as int) =~= values@);
        }
        Result::Ok(moves[bi])
    }
}

} // verus!
