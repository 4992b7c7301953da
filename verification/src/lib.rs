//! A chess-playing engine core: feature encoding of positions, negamax search
//! (plain and alpha-beta-pruned) over integer-scored game trees, a self-play
//! episode recorder, uniform-credit training updates, and the bookkeeping of
//! an Elo-style rating match. The rules engine (the `chess` crate) and the
//! evaluator network (the `neuroflow` crate) are reached only through narrow
//! trusted interfaces; everything else is verified.

pub mod bridge;
pub mod engine;
pub mod errors;
pub mod feature;
pub mod rating;
pub mod rules;
pub mod selfplay;
pub mod search;
pub mod tree;
