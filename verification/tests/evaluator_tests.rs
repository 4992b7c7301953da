//! Tests that run the verified core against the real evaluator network and
//! the rating arithmetic of the driver layer.

use neuroflow::FeedForward;
use selfplay_chess::engine::{Engine, PruningType};
use selfplay_chess::feature::FeatureVector;
use selfplay_chess::rating::{first_engine_plays_white, game_half_points};
use selfplay_chess::rules::{apply_move, legal_moves};
use selfplay_chess::selfplay::SelfPlay;
use selfplay_chess::tree::{leaf_features, with_scores};

const SCORE_SCALE: f64 = 1000000.0;

fn nn_score(nn: &mut FeedForward, fv: &FeatureVector) -> i32 {
    let mut x: Vec<f64> = Vec::new();
    for i in 0..fv.len() {
        x.push(fv.get(i) as f64);
    }
    let out = nn.calc(&x)[0];
    (out * SCORE_SCALE) as i32
}

fn board_value(engine: &Engine, board: &chess::Board, nn: &mut FeedForward) -> i64 {
    let t = engine.search_tree(board);
    let leaves = leaf_features(&t);
    let mut raw: Vec<i32> = Vec::new();
    for fv in leaves.iter() {
        raw.push(nn_score(nn, fv));
    }
    let st = with_scores(&t, &raw).expect("one score per leaf");
    engine.evaluate_tree(&st)
}

fn pick_move(engine: &Engine, board: &chess::Board, nn: &mut FeedForward) -> chess::ChessMove {
    let moves = legal_moves(board);
    let mut values: Vec<i64> = Vec::new();
    for m in moves.iter() {
        let child = apply_move(board, m);
        values.push(board_value(engine, &child, nn));
    }
    engine.best_move_from_values(&moves, &values).expect("a legal move exists")
}

#[test]
fn depth_one_best_move_with_network_agrees_across_pruning_modes() {
    let mut nn = FeedForward::new(&[65, 32, 1]);
    let plain = Engine::new(1, PruningType::NoPruning);
    let pruned = Engine::new(1, PruningType::AlphaBeta);
    let board = chess::Board::default();
    let m1 = pick_move(&plain, &board, &mut nn);
    let m2 = pick_move(&pruned, &board, &mut nn);
    assert_eq!(m1, m2);
}

#[test]
fn snapshot_round_trip_preserves_evaluation() {
    // An engine snapshot is its depth, pruning tag and network parameters;
    // reloading it must leave the evaluation of a probe set unchanged.
    let mut nn = FeedForward::new(&[65, 32, 1]);
    let snapshot = serde_json::to_string(&(3u8, "AlphaBeta".to_string(), &nn))
        .expect("serializes");
    let (depth, tag, mut reloaded): (u8, String, FeedForward) =
        serde_json::from_str(&snapshot).expect("deserializes");
    assert_eq!(depth, 3);
    assert_eq!(tag, "AlphaBeta");

    let engine = Engine::new(0, PruningType::NoPruning);
    let mut board = chess::Board::default();
    for _ in 0..4 {
        let before = board_value(&engine, &board, &mut nn);
        let after = board_value(&engine, &board, &mut reloaded);
        assert_eq!(before, after);
        let moves = legal_moves(&board);
        board = apply_move(&board, &moves[0]);
    }
}

#[test]
fn identical_engines_keep_ratings_near_the_start() {
    // Two engines with the same configuration and evaluator play identical
    // games, so with colors alternating the ratings stay near 1500.
    let engine = Engine::new(0, PruningType::AlphaBeta);
    let mut sp = SelfPlay::new();
    let mut plies: usize = 0;
    while !sp.finished() {
        assert!(plies < 20000, "self-play game did not terminate");
        let board = sp.board();
        let moves = legal_moves(&board);
        let mut values: Vec<i64> = Vec::new();
        for m in moves.iter() {
            let child = apply_move(&board, m);
            let t = engine.search_tree(&child);
            let leaves = leaf_features(&t);
            let raw: Vec<i32> = vec![0; leaves.len()];
            let st = with_scores(&t, &raw).expect("one score per leaf");
            values.push(engine.evaluate_tree(&st));
        }
        let m = engine.best_move_from_values(&moves, &values).expect("a legal move exists");
        sp.step(&m).expect("self-play step");
        plies += 1;
    }
    let result = sp.outcome().unwrap();

    // Both engines deterministically repeat this game whoever holds White.
    let mut rating_a: f64 = 1500.0;
    let mut rating_b: f64 = 1500.0;
    for i in 0..10u64 {
        let expected_a = 1.0 / (1.0 + 10f64.powf((rating_b - rating_a) / 400.0));
        let expected_b = 1.0 / (1.0 + 10f64.powf((rating_a - rating_b) / 400.0));
        let (ha, hb) = game_half_points(result, first_engine_plays_white(i));
        rating_a += 32.0 * (ha as f64 / 2.0 - expected_a);
        rating_b += 32.0 * (hb as f64 / 2.0 - expected_b);
    }
    assert!((rating_a - 1500.0).abs() <= 33.0);
    assert!((rating_b - 1500.0).abs() <= 33.0);
}
