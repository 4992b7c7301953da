//! Negamax search over integer-scored game trees, plain and with alpha-beta
//! pruning, and the proof that the two agree.
//!
//! A `ScoreTree` is the shape of a bounded-depth game tree whose leaves carry
//! the evaluator's score for the leaf position, already expressed from the
//! perspective of the side to move there. The negamax value of a node is the
//! maximum over its children of the negated child value. `negamax_value`
//! computes it directly; `alphabeta_value` computes it with pruning, and its
//! contract shows that at a full window it returns exactly the same value.

use vstd::prelude::*;

verus! {

/// Scores at tree leaves are bounded by this in magnitude, so that every
/// negamax value of a well-formed tree also stays within the bound.
pub const LEAF_SCORE_BOUND: i64 = 2147483648;

/// A pseudo-infinity, strictly larger than every value a well-formed tree
/// can take; the starting window of an alpha-beta search.
pub const SCORE_INF: i64 = 4294967296;

/// A bounded-depth game tree with evaluator scores at the leaves. Each leaf
/// score is from the perspective of the side to move at that leaf.
pub enum ScoreTree {
    Leaf(i64),
    Node(Vec<ScoreTree>),
}

/// Well-formed score trees: every leaf score is within `LEAF_SCORE_BOUND`
/// and every interior node has at least one child.
pub open spec fn wf_tree(t: ScoreTree) -> bool
    decreases t,
{
    match t {
        ScoreTree::Leaf(s) => -LEAF_SCORE_BOUND <= s <= LEAF_SCORE_BOUND,
        ScoreTree::Node(cs) => cs@.len() >= 1 && (forall|k: int|
            0 <= k < cs@.len() ==> wf_tree(#[trigger] cs@[k])),
    }
}

/// The negamax value of a tree: a leaf's own score, or the maximum over the
/// children of the negated child value.
pub open spec fn nm(t: ScoreTree) -> int
    decreases t, 0int, 0int,
{
    match t {
        ScoreTree::Leaf(s) => s as int,
        ScoreTree::Node(cs) => suffix_best(cs@, 0),
    }
}

/// The maximum of the negated values of the children from index `i` on,
/// or minus pseudo-infinity for an empty suffix.
pub open spec fn suffix_best(cs: Seq<ScoreTree>, i: int) -> int
    decreases cs, 1int, cs.len() - i,
{
    if i < 0 || i >= cs.len() {
        -(SCORE_INF as int)
    } else {
        vstd::math::max(-nm(cs[i]), suffix_best(cs, i + 1))
    }
}

/// Every well-formed tree's negamax value is within the leaf bound.
pub proof fn lemma_nm_bounded(t: ScoreTree)
    requires
        wf_tree(t),
    ensures
        -(LEAF_SCORE_BOUND as int) <= nm(t) <= LEAF_SCORE_BOUND as int,
    decreases t, 0int, 0int,
{
    match t {
        ScoreTree::Leaf(_) => {}
        ScoreTree::Node(cs) => {
            lemma_suffix_best_bounded(cs@, 0);
        }
    }
}

/// For a nonempty suffix of well-formed children, the suffix maximum is
/// within the leaf bound.
proof fn lemma_suffix_best_bounded(cs: Seq<ScoreTree>, i: int)
    requires
        0 <= i < cs.len(),
        forall|k: int| 0 <= k < cs.len() ==> wf_tree(#[trigger] cs[k]),
    ensures
        -(LEAF_SCORE_BOUND as int) <= suffix_best(cs, i) <= LEAF_SCORE_BOUND as int,
    decreases cs, 1int, cs.len() - i,
{
    lemma_nm_bounded(cs[i]);
    if i + 1 < cs.len() {
        lemma_suffix_best_bounded(cs, i + 1);
    }
}

/// The plain negamax value of a well-formed tree.
pub fn negamax_value(t: &ScoreTree) -> (v: i64)
    requires
        wf_tree(*t),
    ensures
        v as int == nm(*t),
        -SCORE_INF <= v <= SCORE_INF,
    decreases *t, 0int, 0int,
{
    match t {
        ScoreTree::Leaf(s) => *s,
        ScoreTree::Node(cs) => {
            proof {
                lemma_suffix_best_bounded(cs@, 0);
            }
            negamax_scan(cs, 0, -SCORE_INF)
        }
    }
}

/// Folds the plain negamax maximum over the children from index `i` on,
/// starting from the best value `v` seen so far.
fn negamax_scan(cs: &Vec<ScoreTree>, i: usize, v: i64) -> (r: i64)
    requires
        i <= cs@.len(),
        forall|k: int| 0 <= k < cs@.len() ==> wf_tree(#[trigger] cs@[k]),
        -SCORE_INF <= v <= SCORE_INF,
    ensures
        r as int == vstd::math::max(v as int, suffix_best(cs@, i as int)),
        -SCORE_INF <= r <= SCORE_INF,
    decreases cs@, 1int, cs@.len() - i,
{
    if i == cs.len() {
        v
    } else {
        let c = negamax_value(&cs[i]);
        proof {
            lemma_nm_bounded(cs@[i as int]);
        }
        let s = -c;
        let v2 = if s > v { s } else { v };
        negamax_scan(cs, i + 1, v2)
    }
}

/// What remains to be established once the best value among the already
/// scanned children is `v`: the maximum of `v` and the suffix from `i`.
pub open spec fn scan_goal(v: int, cs: Seq<ScoreTree>, i: int) -> int {
    vstd::math::max(v, suffix_best(cs, i))
}

/// The alpha-beta value of a well-formed tree, fail-soft. At a window that
/// surely contains the true value the result is exactly the negamax value;
/// outside the window it is a bound of the stated direction.
pub fn alphabeta_value(t: &ScoreTree, alpha: i64, beta: i64) -> (v: i64)
    requires
        wf_tree(*t),
        -SCORE_INF <= alpha,
        alpha < beta,
        beta <= SCORE_INF,
    ensures
        -SCORE_INF <= v <= SCORE_INF,
        nm(*t) <= alpha ==> v <= alpha && nm(*t) <= v,
        alpha < nm(*t) < beta ==> v as int == nm(*t),
        nm(*t) >= beta ==> beta <= v && v as int <= nm(*t),
    decreases *t, 0int, 0int,
{
    match t {
        ScoreTree::Leaf(s) => *s,
        ScoreTree::Node(cs) => {
            proof {
                lemma_suffix_best_bounded(cs@, 0);
            }
            alphabeta_scan(cs, 0, -SCORE_INF, alpha, beta)
        }
    }
}

/// Scans the children from index `i` on with the running best value `v` and
/// the narrowed window `(a, b)`, stopping as soon as the best value reaches
/// the opponent's bound `b`.
fn alphabeta_scan(cs: &Vec<ScoreTree>, i: usize, v: i64, a: i64, b: i64) -> (r: i64)
    requires
        i <= cs@.len(),
        forall|k: int| 0 <= k < cs@.len() ==> wf_tree(#[trigger] cs@[k]),
        -SCORE_INF <= v,
        v <= a,
        a < b,
        b <= SCORE_INF,
    ensures
        v <= r,
        -SCORE_INF <= r <= SCORE_INF,
        scan_goal(v as int, cs@, i as int) <= a ==> r <= a && scan_goal(
            v as int,
            cs@,
            i as int,
        ) <= r,
        a < scan_goal(v as int, cs@, i as int) < b ==> r as int == scan_goal(
            v as int,
            cs@,
            i as int,
        ),
        scan_goal(v as int, cs@, i as int) >= b ==> b <= r && r as int <= scan_goal(
            v as int,
            cs@,
            i as int,
        ),
    decreases cs@, 1int, cs@.len() - i,
{
    if i == cs.len() {
        return v;
    }
    let c = alphabeta_value(&cs[i], -b, -a);
    proof {
        lemma_nm_bounded(cs@[i as int]);
    }
    let s = -c;
    let ghost ci = nm(cs@[i as int]);
    proof {
        assert(suffix_best(cs@, i as int) == vstd::math::max(
            -ci,
            suffix_best(cs@, i as int + 1),
        ));
        // From the child's contract, one of three cases relates s to -ci.
        assert(s as int <= vstd::math::max(-ci, a as int));
        assert(s as int >= -ci || s >= b);
        assert(s >= b ==> s as int <= -ci);
        assert(s <= a ==> -ci <= s as int);
        assert(a < s < b ==> s as int == -ci);
    }
    let v2 = if s > v {
        s
    } else {
        v
    };
    if v2 >= b {
        proof {
            assert(v2 == s && s >= b);
            assert(-ci >= s);
            assert(scan_goal(v as int, cs@, i as int) >= -ci);
        }
        return v2;
    }
    let a2 = if v2 > a {
        v2
    } else {
        a
    };
    let r = alphabeta_scan(cs, i + 1, v2, a2, b);
    proof {
        let m = scan_goal(v as int, cs@, i as int);
        let m2 = scan_goal(v2 as int, cs@, i as int + 1);
        if s <= a {
            // The child failed low: -ci <= s <= a, so the window is unchanged
            // and the goal can shift only below a.
            assert(a2 == a);
            assert(m <= vstd::math::max(m2, a as int));
            assert(m2 <= vstd::math::max(m, a as int));
            assert(m2 >= m || m <= a);
        } else {
            // a < s < b, so s == -ci exactly and the goals coincide.
            assert(v2 == s);
            assert(m2 == m);
            if m < b {
                if m == v2 {
                    assert(m2 <= a2);
                } else {
                    assert(a2 < m2 < b);
                }
            }
        }
    }
    r
}

} // verus!
