//! Bounded-depth expansion of the game tree below a position.
//!
//! `expand` unfolds a position to a fixed depth through the rules engine,
//! leaving at every leaf the feature encoding of the leaf position.
//! `leaf_features` lists those encodings in depth-first order, so that an
//! evaluator can score them, and `with_scores` folds the scores back into a
//! `ScoreTree` for the search, applying the side-to-move sign the negamax
//! convention requires at each leaf.

use vstd::prelude::*;
use crate::feature::{features, FeatureVector};
use crate::rules::{
    apply_move,
    board_ongoing,
    legal_moves,
    spec_apply,
    spec_moves,
    spec_ongoing,
};
use crate::search::{wf_tree, ScoreTree};

verus! {

/// The game tree below a position, unfolded to a bounded depth, with the
/// feature encoding of the position at every leaf.
pub enum PositionTree {
    Leaf(FeatureVector),
    Node(Vec<PositionTree>),
}

/// Well-formed position trees: every leaf encoding is well formed and every
/// interior node has at least one child.
pub open spec fn pt_wf(t: PositionTree) -> bool
    decreases t,
{
    match t {
        PositionTree::Leaf(fv) => fv.wf(),
        PositionTree::Node(cs) => cs@.len() >= 1 && (forall|k: int|
            0 <= k < cs@.len() ==> pt_wf(#[trigger] cs@[k])),
    }
}

/// Expansion stops at a position when the depth is exhausted, the position
/// is no longer ongoing, or no legal move exists at all.
pub open spec fn expansion_stops(b: chess::Board, d: nat) -> bool {
    d == 0 || !spec_ongoing(b) || spec_moves(b).len() == 0
}

/// Whether `t` is exactly the depth-`d` expansion of board `b`: a leaf
/// encoding `b` where expansion stops, otherwise one child per legal move
/// of `b`, in move order, each the depth-`d - 1` expansion of the position
/// that move reaches.
pub open spec fn reflects(t: PositionTree, b: chess::Board, d: nat) -> bool
    decreases d,
{
    if expansion_stops(b, d) {
        t matches PositionTree::Leaf(fv) && fv.encodes(b)
    } else {
        t matches PositionTree::Node(cs) && cs@.len() == spec_moves(b).len() && (forall|i: int|
            0 <= i < cs@.len() ==> reflects(
                #[trigger] cs@[i],
                spec_apply(b, spec_moves(b)[i]),
                (d - 1) as nat,
            ))
    }
}

/// The leaf encodings of a tree in depth-first order, as entry sequences.
pub open spec fn leaf_views(t: PositionTree) -> Seq<Seq<i8>>
    decreases t, 0int, 0int,
{
    match t {
        PositionTree::Leaf(fv) => seq![fv@],
        PositionTree::Node(cs) => leaf_views_from(cs@, 0),
    }
}

/// The leaf encodings of the children from index `i` on, concatenated.
pub open spec fn leaf_views_from(cs: Seq<PositionTree>, i: int) -> Seq<Seq<i8>>
    decreases cs, 1int, cs.len() - i,
{
    if i < 0 || i >= cs.len() {
        Seq::empty()
    } else {
        leaf_views(cs[i]) + leaf_views_from(cs, i + 1)
    }
}

/// Expands a board to the given depth through the rules engine.
pub fn expand(board: &chess::Board, depth: u8) -> (t: PositionTree)
    ensures
        reflects(t, *board, depth as nat),
        pt_wf(t),
    decreases depth,
{
    if depth == 0 || !board_ongoing(board) {
        return PositionTree::Leaf(features(board));
    }
    let moves = legal_moves(board);
    if moves.len() == 0 {
        return PositionTree::Leaf(features(board));
    }
    let mut children: Vec<PositionTree> = Vec::new();
    let mut i: usize = 0;
    while i < moves.len()
        invariant
            i <= moves@.len(),
            moves@ == spec_moves(*board),
            moves@.len() >= 1,
            depth >= 1,
            children@.len() == i,
            forall|j: int| 0 <= j < i ==> reflects(
                #[trigger] children@[j],
                spec_apply(*board, spec_moves(*board)[j]),
                (depth - 1) as nat,
            ),
            forall|j: int| 0 <= j < i ==> pt_wf(#[trigger] children@[j]),
        decreases moves@.len() - i,
    {
        proof {
            assert(spec_moves(*board)[i as int] == moves@[i as int]);
        }
        let child_board = apply_move(board, &moves[i]);
        let sub = expand(&child_board, depth - 1);
        children.push(sub);
        i = i + 1;
    }
    PositionTree::Node(children)
}

/// The leaf encodings of a tree in depth-first order, ready for an
/// evaluator to score.
pub fn leaf_features(t: &PositionTree) -> (v: Vec<FeatureVector>)
    ensures
        v@.len() == leaf_views(*t).len(),
        forall|i: int| 0 <= i < v@.len() ==> #[trigger] v@[i]@ == leaf_views(*t)[i],
{
    let mut out: Vec<FeatureVector> = Vec::new();
    collect_leaves(t, &mut out);
    proof {
        assert forall|i: int| 0 <= i < out@.len() implies #[trigger] out@[i]@ == leaf_views(
            *t,
        )[i] by {
            assert(out@[0 + i]@ == leaf_views(*t)[i]);
        }
    }
    out
}

/// Appends the leaf encodings of `t` to `out` in depth-first order.
fn collect_leaves(t: &PositionTree, out: &mut Vec<FeatureVector>)
    ensures
        final(out)@.len() == old(out)@.len() + leaf_views(*t).len(),
        forall|i: int| 0 <= i < old(out)@.len() ==> #[trigger] final(out)@[i] == old(out)@[i],
        forall|j: int| 0 <= j < leaf_views(*t).len() ==> #[trigger] final(out)@[old(out)@.len()
            + j]@ == leaf_views(*t)[j],
    decreases *t, 0int, 0int,
{
    match t {
        PositionTree::Leaf(fv) => {
            out.push(fv.duplicate());
        },
        PositionTree::Node(cs) => {
            collect_leaves_from(cs, 0, out);
        },
    }
}

/// Appends the leaf encodings of the children from index `i` on.
fn collect_leaves_from(cs: &Vec<PositionTree>, i: usize, out: &mut Vec<FeatureVector>)
    requires
        i <= cs@.len(),
    ensures
        final(out)@.len() == old(out)@.len() + leaf_views_from(cs@, i as int).len(),
        forall|k: int| 0 <= k < old(out)@.len() ==> #[trigger] final(out)@[k] == old(out)@[k],
        forall|j: int| 0 <= j < leaf_views_from(cs@, i as int).len()
            ==> #[trigger] final(out)@[old(out)@.len() + j]@ == leaf_views_from(cs@, i as int)[j],
    decreases cs@, 1int, cs@.len() - i,
{
    if i < cs.len() {
        let ghost base = out@;
        collect_leaves(&cs[i], out);
        let ghost mid = out@;
        collect_leaves_from(cs, i + 1, out);
        proof {
            let first = leaf_views(cs@[i as int]);
            let rest = leaf_views_from(cs@, i as int + 1);
            assert(leaf_views_from(cs@, i as int) == first + rest);
            assert forall|j: int| 0 <= j < leaf_views_from(cs@, i as int).len()
                implies #[trigger] out@[base.len() + j]@ == leaf_views_from(
                cs@,
                i as int,
            )[j] by {
                if j < first.len() {
                    assert(out@[base.len() + j] == mid[base.len() + j]);
                    assert(mid[base.len() + j]@ == first[j]);
                } else {
                    assert(out@[mid.len() + (j - first.len())]@ == rest[j - first.len()]);
                }
            }
        }
    }
}

/// A leaf score signed for the side to move there: the evaluator's raw
/// score when the side entry is +1, its negation otherwise.
pub open spec fn signed_score(side: int, raw: int) -> int {
    if side == 1 {
        raw
    } else {
        -raw
    }
}

/// Whether `st` carries, leaf for leaf, the raw scores `raw[k..]` folded
/// into the shape of `t`, each signed for the side to move at its leaf.
pub open spec fn scored_match(st: ScoreTree, t: PositionTree, raw: Seq<i32>, k: int) -> bool
    decreases t, 0int, 0int,
{
    match t {
        PositionTree::Leaf(fv) => st matches ScoreTree::Leaf(s) && s as int == signed_score(
            fv@[64] as int,
            raw[k] as int,
        ),
        PositionTree::Node(cs) => st matches ScoreTree::Node(scs) && scored_suffix(
            scs@,
            cs@,
            0,
            raw,
            k,
        ),
    }
}

/// Whether `scs` matches, in order, the children of `cs` from index `i` on,
/// with the cursor into `raw` advancing by each child's leaf count.
pub open spec fn scored_suffix(
    scs: Seq<ScoreTree>,
    cs: Seq<PositionTree>,
    i: int,
    raw: Seq<i32>,
    k: int,
) -> bool
    decreases cs, 1int, cs.len() - i,
{
    if i < 0 || i >= cs.len() {
        scs.len() == 0
    } else {
        &&& scs.len() == cs.len() - i
        &&& scored_match(scs[0], cs[i], raw, k)
        &&& scored_suffix(scs.drop_first(), cs, i + 1, raw, k + leaf_views(cs[i]).len())
    }
}

/// Folds raw evaluator scores into the shape of `t`. Succeeds exactly when
/// one score per leaf was supplied, and then returns the well-formed score
/// tree whose leaves are the scores in depth-first order, each signed for
/// the side to move at its leaf.
pub fn with_scores(t: &PositionTree, raw: &Vec<i32>) -> (res: Option<ScoreTree>)
    requires
        pt_wf(*t),
    ensures
        res matches Some(st) ==> wf_tree(st) && scored_match(st, *t, raw@, 0) && raw@.len()
            == leaf_views(*t).len(),
        res is None <==> raw@.len() != leaf_views(*t).len(),
{
    match attach_scores(t, raw, 0) {
        Option::Some((st, k2)) => {
            if k2 == raw.len() {
                Option::Some(st)
            } else {
                Option::None
            }
        },
        Option::None => Option::None,
    }
}

/// Attaches the scores `raw[k..]` to the leaves of `t`, returning the
/// scored tree and the cursor past its last leaf.
fn attach_scores(t: &PositionTree, raw: &Vec<i32>, k: usize) -> (res: Option<(ScoreTree, usize)>)
    requires
        pt_wf(*t),
        k <= raw@.len(),
    ensures
        res matches Some(p) ==> {
            &&& p.1 == k + leaf_views(*t).len()
            &&& p.1 <= raw@.len()
            &&& wf_tree(p.0)
            &&& scored_match(p.0, *t, raw@, k as int)
        },
        res is None <==> k + leaf_views(*t).len() > raw@.len(),
    decreases *t, 0int, 0int,
{
    match t {
        PositionTree::Leaf(fv) => {
            if k >= raw.len() {
                return Option::None;
            }
            let rv = raw[k];
            let sv: i64 = if fv.get(64) == 1 {
                rv as i64
            } else {
                -(rv as i64)
            };
            Option::Some((ScoreTree::Leaf(sv), k + 1))
        },
        PositionTree::Node(cs) => {
            match attach_from(cs, 0, raw, k) {
                Option::Some((scs, k2)) => Option::Some((ScoreTree::Node(scs), k2)),
                Option::None => Option::None,
            }
        },
    }
}

/// Attaches scores to the children of `cs` from index `i` on, returning
/// the scored children in order and the cursor past their last leaf.
fn attach_from(cs: &Vec<PositionTree>, i: usize, raw: &Vec<i32>, k: usize) -> (res: Option<
    (Vec<ScoreTree>, usize),
>)
    requires
        i <= cs@.len(),
        forall|j: int| 0 <= j < cs@.len() ==> pt_wf(#[trigger] cs@[j]),
        k <= raw@.len(),
    ensures
        res matches Some(p) ==> {
            &&& p.1 == k + leaf_views_from(cs@, i as int).len()
            &&& p.1 <= raw@.len()
            &&& p.0@.len() == cs@.len() - i
            &&& (forall|j: int| 0 <= j < p.0@.len() ==> wf_tree(#[trigger] p.0@[j]))
            &&& scored_suffix(p.0@, cs@, i as int, raw@, k as int)
        },
        res is None <==> k + leaf_views_from(cs@, i as int).len() > raw@.len(),
    decreases cs@, 1int, cs@.len() - i,
{
    if i == cs.len() {
        return Option::Some((Vec::new(), k));
    }
    match attach_scores(&cs[i], raw, k) {
        Option::None => Option::None,
        Option::Some((st, k2)) => {
            match attach_from(cs, i + 1, raw, k2) {
                Option::None => Option::None,
                Option::Some((rest, k3)) => {
                    let ghost rest_view = rest@;
                    let mut scs = rest;
                    scs.insert(0, st);
                    proof {
                        assert(scs@ == rest_view.insert(0, st));
                        assert(scs@[0] == st);
                        assert(scs@.drop_first() =~= rest_view);
                        assert(leaf_views_from(cs@, i as int) == leaf_views(cs@[i as int])
                            + leaf_views_from(cs@, i as int + 1));
                        assert forall|j: int| 0 <= j < scs@.len() implies wf_tree(
                            #[trigger] scs@[j],
                        ) by {
                            if j > 0 {
                                assert(scs@[j] == rest_view[j - 1]);
                            }
                        }
                    }
                    Option::Some((scs, k3))
                },
            }
        },
    }
}

} // verus!
