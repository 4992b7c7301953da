//! Tests of the score-tree search: plain negamax, alpha-beta, and move
//! selection.

use selfplay_chess::engine::{Engine, PruningType};
use selfplay_chess::errors::EngineError;
use selfplay_chess::rules::legal_moves;
use selfplay_chess::search::{alphabeta_value, negamax_value, ScoreTree, SCORE_INF};

fn sample_tree() -> ScoreTree {
    ScoreTree::Node(vec![
        ScoreTree::Node(vec![ScoreTree::Leaf(3), ScoreTree::Leaf(-5)]),
        ScoreTree::Leaf(2),
        ScoreTree::Node(vec![ScoreTree::Leaf(-1), ScoreTree::Leaf(7)]),
    ])
}

#[test]
fn negamax_value_on_hand_built_tree() {
    // Children values: max(-3, 5) = 5, leaf 2, max(1, -7) = 1.
    // Root: max(-5, -2, -1) = -1.
    assert_eq!(negamax_value(&sample_tree()), -1);
    assert_eq!(negamax_value(&ScoreTree::Leaf(42)), 42);
}

#[test]
fn alphabeta_equals_negamax_at_full_window() {
    let t = sample_tree();
    let plain = negamax_value(&t);
    let pruned = alphabeta_value(&t, -SCORE_INF, SCORE_INF);
    assert_eq!(plain, pruned);
    assert_eq!(pruned, -1);
}

#[test]
fn alphabeta_equals_negamax_on_deep_tree() {
    let deep = ScoreTree::Node(vec![
        ScoreTree::Node(vec![
            ScoreTree::Node(vec![ScoreTree::Leaf(4), ScoreTree::Leaf(9)]),
            ScoreTree::Node(vec![ScoreTree::Leaf(-6), ScoreTree::Leaf(0)]),
        ]),
        ScoreTree::Node(vec![
            ScoreTree::Node(vec![ScoreTree::Leaf(1), ScoreTree::Leaf(1)]),
            ScoreTree::Leaf(-3),
        ]),
    ]);
    let plain = negamax_value(&deep);
    let pruned = alphabeta_value(&deep, -SCORE_INF, SCORE_INF);
    assert_eq!(plain, pruned);
}

#[test]
fn narrow_windows_bound_the_true_value() {
    // The sample tree's value is -1. A window that contains it pins it
    // exactly; a window wholly above or below it yields a bound on the
    // matching side.
    let t = sample_tree();
    assert_eq!(alphabeta_value(&t, -2, 0), -1);

    let failed_low = alphabeta_value(&t, 0, 10);
    assert!(failed_low <= 0 && -1 <= failed_low);

    let failed_high = alphabeta_value(&t, -10, -5);
    assert!(failed_high >= -5 && failed_high <= -1);
}

#[test]
fn evaluate_tree_agrees_across_pruning_modes() {
    let plain_engine = Engine::new(2, PruningType::NoPruning);
    let pruned_engine = Engine::new(2, PruningType::AlphaBeta);
    let t = sample_tree();
    assert_eq!(plain_engine.evaluate_tree(&t), pruned_engine.evaluate_tree(&t));
    assert_eq!(plain_engine.evaluate_tree(&t), -1);
}

#[test]
fn best_move_picks_greatest_value_first_on_ties() {
    let board = chess::Board::default();
    let moves = legal_moves(&board);
    assert_eq!(moves.len(), 20);
    let engine = Engine::new(1, PruningType::NoPruning);

    let mut values: Vec<i64> = vec![0; moves.len()];
    values[3] = 7;
    values[5] = 7;
    let picked = engine.best_move_from_values(&moves, &values).unwrap();
    assert_eq!(picked, moves[3]);

    // All equal: the first move wins.
    let flat: Vec<i64> = vec![1; moves.len()];
    let picked = engine.best_move_from_values(&moves, &flat).unwrap();
    assert_eq!(picked, moves[0]);
}

#[test]
fn best_move_without_moves_is_no_legal_moves() {
    let engine = Engine::new(1, PruningType::AlphaBeta);
    let moves: Vec<chess::ChessMove> = Vec::new();
    let values: Vec<i64> = Vec::new();
    assert_eq!(engine.best_move_from_values(&moves, &values), Err(EngineError::NoLegalMoves));
}

#[test]
fn best_move_is_deterministic() {
    let board = chess::Board::default();
    let moves = legal_moves(&board);
    let engine = Engine::new(1, PruningType::NoPruning);
    let mut values: Vec<i64> = Vec::new();
    for i in 0..moves.len() {
        values.push(((i as i64) * 37) % 11 - 5);
    }
    let first = engine.best_move_from_values(&moves, &values).unwrap();
    let second = engine.best_move_from_values(&moves, &values).unwrap();
    assert_eq!(first, second);
}
