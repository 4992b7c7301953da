//! Tests of the feature encoding of positions.

use selfplay_chess::feature::{features, NUM_FEATURES};
use selfplay_chess::rules::{apply_move, legal_moves};

#[test]
fn initial_position_side_entry_is_plus_one() {
    let board = chess::Board::default();
    let f = features(&board);
    assert_eq!(f.len(), NUM_FEATURES);
    assert_eq!(f.get(64), 1);
}

#[test]
fn initial_position_encodes_standard_setup() {
    let board = chess::Board::default();
    let f = features(&board);
    // Rank 1 (entries 0..8): rook 4, knight 2, bishop 3, queen 5, king 6.
    let back_rank: [i8; 8] = [4, 2, 3, 5, 6, 3, 2, 4];
    for file in 0..8 {
        assert_eq!(f.get(file), back_rank[file]);
        assert_eq!(f.get(8 + file), 1); // white pawns
        assert_eq!(f.get(48 + file), -1); // black pawns
        assert_eq!(f.get(56 + file), -back_rank[file]);
    }
    for idx in 16..48 {
        assert_eq!(f.get(idx), 0); // empty middle of the board
    }
}

#[test]
fn every_entry_stays_in_range() {
    let mut board = chess::Board::default();
    // Walk a few plies of first-legal-move chess and check the invariant
    // along the way.
    for _ in 0..6 {
        let f = features(&board);
        assert_eq!(f.len(), 65);
        for i in 0..64 {
            let e = f.get(i);
            assert!(-6 <= e && e <= 6);
        }
        let side = f.get(64);
        assert!(side == 1 || side == -1);
        let moves = legal_moves(&board);
        board = apply_move(&board, &moves[0]);
    }
}

#[test]
fn side_entry_flips_after_a_move() {
    let board = chess::Board::default();
    let moves = legal_moves(&board);
    let after = apply_move(&board, &moves[0]);
    assert_eq!(features(&board).get(64), 1);
    assert_eq!(features(&after).get(64), -1);
}

#[test]
fn duplicate_copies_every_entry() {
    let board = chess::Board::default();
    let f = features(&board);
    let copy = f.duplicate();
    assert_eq!(copy.len(), f.len());
    for i in 0..65 {
        assert_eq!(copy.get(i), f.get(i));
    }
    assert_eq!(f.as_entries().len(), 65);
}
