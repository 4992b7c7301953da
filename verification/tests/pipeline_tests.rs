//! Tests of the full search pipeline: expand a position, score the leaf
//! encodings, fold the scores back, and search the scored tree.

use std::str::FromStr;

use selfplay_chess::engine::{Engine, PruningType};
use selfplay_chess::errors::EngineError;
use selfplay_chess::feature::FeatureVector;
use selfplay_chess::rules::{apply_move, legal_moves};
use selfplay_chess::tree::{leaf_features, with_scores};

fn score_with<F: FnMut(&FeatureVector) -> i32>(leaves: &Vec<FeatureVector>, f: &mut F) -> Vec<i32> {
    let mut raw: Vec<i32> = Vec::new();
    for fv in leaves.iter() {
        raw.push(f(fv));
    }
    raw
}

fn board_value<F: FnMut(&FeatureVector) -> i32>(
    engine: &Engine,
    board: &chess::Board,
    f: &mut F,
) -> i64 {
    let t = engine.search_tree(board);
    let leaves = leaf_features(&t);
    let raw = score_with(&leaves, f);
    let st = with_scores(&t, &raw).expect("one score per leaf");
    engine.evaluate_tree(&st)
}

fn pick_move<F: FnMut(&FeatureVector) -> i32>(
    engine: &Engine,
    board: &chess::Board,
    f: &mut F,
) -> chess::ChessMove {
    let moves = legal_moves(board);
    let mut values: Vec<i64> = Vec::new();
    for m in moves.iter() {
        let child = apply_move(board, m);
        values.push(board_value(engine, &child, f));
    }
    engine.best_move_from_values(&moves, &values).expect("a legal move exists")
}

/// A deterministic stand-in evaluator: a weighted sum of the entries.
fn toy_score(fv: &FeatureVector) -> i32 {
    let mut acc: i32 = 0;
    for i in 0..fv.len() {
        acc += (fv.get(i) as i32) * ((i as i32 % 7) - 3);
    }
    acc
}

#[test]
fn composite_evaluate_matches_the_staged_pipeline() {
    for mode in [PruningType::NoPruning, PruningType::AlphaBeta] {
        let engine = Engine::new(1, mode);
        let board = chess::Board::default();
        let t = engine.search_tree(&board);
        let leaves = leaf_features(&t);
        let raw = score_with(&leaves, &mut toy_score);
        let st = with_scores(&t, &raw).expect("one score per leaf");
        let staged = engine.evaluate_tree(&st);
        let composite = engine.evaluate_board(&board, &raw).expect("one score per leaf");
        assert_eq!(staged, composite);
    }
}

#[test]
fn composite_evaluate_rejects_wrong_score_count() {
    let engine = Engine::new(1, PruningType::NoPruning);
    let board = chess::Board::default();
    let leaves = leaf_features(&engine.search_tree(&board));
    let short: Vec<i32> = vec![0; leaves.len() - 1];
    assert_eq!(engine.evaluate_board(&board, &short), Err(EngineError::InvariantViolation));
}

#[test]
fn board_level_best_move_matches_per_child_search() {
    let engine = Engine::new(1, PruningType::AlphaBeta);
    let board = chess::Board::default();
    let staged = pick_move(&engine, &board, &mut toy_score);

    let moves = legal_moves(&board);
    let mut child_scores: Vec<Vec<i32>> = Vec::new();
    for m in moves.iter() {
        let child = apply_move(&board, m);
        let leaves = leaf_features(&engine.search_tree(&child));
        child_scores.push(score_with(&leaves, &mut toy_score));
    }
    let composite = engine.best_move(&board, &child_scores).expect("a legal move exists");
    assert_eq!(staged, composite);
}

#[test]
fn with_scores_rejects_wrong_score_count() {
    let engine = Engine::new(1, PruningType::NoPruning);
    let t = engine.search_tree(&chess::Board::default());
    let leaves = leaf_features(&t);
    assert!(leaves.len() > 0);
    let short: Vec<i32> = vec![0; leaves.len() - 1];
    assert!(with_scores(&t, &short).is_none());
    let exact: Vec<i32> = vec![0; leaves.len()];
    assert!(with_scores(&t, &exact).is_some());
}

#[test]
fn with_scores_signs_leaves_for_the_side_to_move() {
    // Depth 0: the expansion of the initial position is a single leaf with
    // White to move, so the raw score passes through unchanged; one ply
    // later Black is to move and the raw score is negated.
    let engine = Engine::new(0, PruningType::NoPruning);
    let board = chess::Board::default();
    assert_eq!(board_value(&engine, &board, &mut |_fv: &FeatureVector| 17), 17);
    let moves = legal_moves(&board);
    let after = apply_move(&board, &moves[0]);
    assert_eq!(board_value(&engine, &after, &mut |_fv: &FeatureVector| 17), -17);
}

#[test]
fn pruning_modes_agree_on_searched_positions() {
    let plain = Engine::new(2, PruningType::NoPruning);
    let pruned = Engine::new(2, PruningType::AlphaBeta);
    let mut board = chess::Board::default();
    for _ in 0..3 {
        let a = board_value(&plain, &board, &mut toy_score);
        let b = board_value(&pruned, &board, &mut toy_score);
        assert_eq!(a, b);
        let moves = legal_moves(&board);
        board = apply_move(&board, &moves[0]);
    }
}

#[test]
fn depth_one_best_move_agrees_across_pruning_modes() {
    let plain = Engine::new(1, PruningType::NoPruning);
    let pruned = Engine::new(1, PruningType::AlphaBeta);
    let board = chess::Board::default();
    let m1 = pick_move(&plain, &board, &mut toy_score);
    let m2 = pick_move(&pruned, &board, &mut toy_score);
    assert_eq!(m1, m2);
}

#[test]
fn single_legal_move_is_picked_at_every_depth() {
    // White to move with exactly one legal move: the king steps to b1.
    let board = chess::Board::from_str("k7/8/8/8/8/8/6q1/K7 w - - 0 1").expect("valid position");
    let moves = legal_moves(&board);
    assert_eq!(moves.len(), 1);
    for depth in 0..3 {
        for mode in [PruningType::NoPruning, PruningType::AlphaBeta] {
            let engine = Engine::new(depth, mode);
            let picked = pick_move(&engine, &board, &mut toy_score);
            assert_eq!(picked, moves[0]);
        }
    }
}
