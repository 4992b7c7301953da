//! The board-level specification of the search, and the proof that the
//! tree pipeline computes it.
//!
//! `board_value` says, purely over the rules-engine names, what a depth-`d`
//! negamax search of a board returns when the evaluator's raw scores are
//! supplied in depth-first leaf order: the signed raw score where expansion
//! stops, otherwise the maximum over the legal moves of the negated value
//! of the reached position. The lemmas here show that an expansion that
//! `reflects` the board, scored by `scored_match`, has exactly this value,
//! so the whole pipeline is pinned down by `(board, depth, raw scores)`
//! alone.

use vstd::prelude::*;
use crate::feature::side_code;
use crate::rules::{spec_apply, spec_moves, spec_white_to_move};
use crate::search::{nm, suffix_best, ScoreTree, SCORE_INF};
use crate::tree::{
    expansion_stops,
    leaf_views,
    leaf_views_from,
    reflects,
    scored_match,
    scored_suffix,
    signed_score,
    PositionTree,
};

verus! {

/// The number of leaves of the depth-`d` expansion of a board.
pub open spec fn board_leaf_count(b: chess::Board, d: nat) -> nat
    decreases d, 1int, 0int,
{
    if expansion_stops(b, d) {
        1
    } else {
        board_leaf_count_from(b, d, 0)
    }
}

/// The leaves of the expansions reached by the moves from index `i` on.
pub open spec fn board_leaf_count_from(b: chess::Board, d: nat, i: int) -> nat
    decreases d, 0int, spec_moves(b).len() - i,
{
    if d == 0 || i < 0 || i >= spec_moves(b).len() {
        0
    } else {
        board_leaf_count(spec_apply(b, spec_moves(b)[i]), (d - 1) as nat)
            + board_leaf_count_from(b, d, i + 1)
    }
}

/// The negamax value of a depth-`d` search of a board whose leaves are
/// scored by `raw[k..]` in depth-first order.
pub open spec fn board_value(b: chess::Board, d: nat, raw: Seq<i32>, k: int) -> int
    decreases d, 1int, 0int,
{
    if expansion_stops(b, d) {
        signed_score(side_code(spec_white_to_move(b)), raw[k] as int)
    } else {
        board_value_from(b, d, raw, k, 0)
    }
}

/// The maximum over the moves from index `i` on of the negated value of
/// the reached position, the score cursor advancing by each subtree's
/// leaf count.
pub open spec fn board_value_from(b: chess::Board, d: nat, raw: Seq<i32>, k: int, i: int) -> int
    decreases d, 0int, spec_moves(b).len() - i,
{
    if d == 0 || i < 0 || i >= spec_moves(b).len() {
        -(SCORE_INF as int)
    } else {
        vstd::math::max(
            -board_value(spec_apply(b, spec_moves(b)[i]), (d - 1) as nat, raw, k),
            board_value_from(
                b,
                d,
                raw,
                k + board_leaf_count(spec_apply(b, spec_moves(b)[i]), (d - 1) as nat),
                i + 1,
            ),
        )
    }
}

/// An expansion of a board has exactly the board's leaf count.
pub proof fn lemma_reflects_leaf_count(t: PositionTree, b: chess::Board, d: nat)
    requires
        reflects(t, b, d),
    ensures
        leaf_views(t).len() == board_leaf_count(b, d),
    decreases d, 1int, 0int,
{
    if !expansion_stops(b, d) {
        let cs = t->Node_0;
        lemma_leaf_count_from(cs@, b, d, 0);
    }
}

proof fn lemma_leaf_count_from(cs: Seq<PositionTree>, b: chess::Board, d: nat, i: int)
    requires
        !expansion_stops(b, d),
        cs.len() == spec_moves(b).len(),
        0 <= i <= cs.len(),
        forall|j: int| i <= j < cs.len() ==> reflects(
            #[trigger] cs[j],
            spec_apply(b, spec_moves(b)[j]),
            (d - 1) as nat,
        ),
    ensures
        leaf_views_from(cs, i).len() == board_leaf_count_from(b, d, i),
    decreases d, 0int, cs.len() - i,
{
    if i < cs.len() {
        lemma_reflects_leaf_count(cs[i], spec_apply(b, spec_moves(b)[i]), (d - 1) as nat);
        lemma_leaf_count_from(cs, b, d, i + 1);
    }
}

/// Scoring an expansion of a board gives it exactly the board's value.
pub proof fn lemma_scored_value(
    t: PositionTree,
    st: ScoreTree,
    b: chess::Board,
    d: nat,
    raw: Seq<i32>,
    k: int,
)
    requires
        reflects(t, b, d),
        scored_match(st, t, raw, k),
    ensures
        nm(st) == board_value(b, d, raw, k),
    decreases d, 1int, 0int,
{
    if !expansion_stops(b, d) {
        let cs = t->Node_0;
        let scs = st->Node_0;
        lemma_value_from(scs@, cs@, b, d, raw, k, 0);
    }
}

proof fn lemma_value_from(
    scs: Seq<ScoreTree>,
    cs: Seq<PositionTree>,
    b: chess::Board,
    d: nat,
    raw: Seq<i32>,
    k: int,
    i: int,
)
    requires
        !expansion_stops(b, d),
        cs.len() == spec_moves(b).len(),
        0 <= i <= cs.len(),
        forall|j: int| i <= j < cs.len() ==> reflects(
            #[trigger] cs[j],
            spec_apply(b, spec_moves(b)[j]),
            (d - 1) as nat,
        ),
        scored_suffix(scs, cs, i, raw, k),
    ensures
        suffix_best(scs, 0) == board_value_from(b, d, raw, k, i),
    decreases d, 0int, cs.len() - i,
{
    if i < cs.len() {
        let child = spec_apply(b, spec_moves(b)[i]);
        lemma_scored_value(cs[i], scs[0], child, (d - 1) as nat, raw, k);
        lemma_reflects_leaf_count(cs[i], child, (d - 1) as nat);
        lemma_value_from(
            scs.drop_first(),
            cs,
            b,
            d,
            raw,
            k + leaf_views(cs[i]).len(),
            i + 1,
        );
        lemma_suffix_best_shift(scs, 0);
    }
}

/// Dropping the first element shifts the suffix maximum by one position.
proof fn lemma_suffix_best_shift(s: Seq<ScoreTree>, j: int)
    requires
        0 <= j <= s.len(),
        s.len() >= 1,
    ensures
        suffix_best(s, j + 1) == suffix_best(s.drop_first(), j),
    decreases s.len() - j,
{
    if j + 1 < s.len() {
        assert(s.drop_first()[j] == s[j + 1]);
        lemma_suffix_best_shift(s, j + 1);
    }
}

} // verus!
