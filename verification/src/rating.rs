//! The discrete bookkeeping of an Elo-style rating match between two
//! engines.
//!
//! Over a match the first engine plays White in the even-numbered games
//! and Black in the odd-numbered ones, cancelling the first-move advantage.
//! Each finished game awards half-points: two to the winner, none to the
//! loser, one to each for a draw. The logistic expected-score formula and
//! the rating updates themselves work on floating-point ratings and stay
//! with the driver.

use vstd::prelude::*;

verus! {

/// The half-points White earns from a game result given from White's
/// perspective: two for a win, none for a loss, one for a draw.
pub open spec fn white_half_points(result: int) -> int {
    if result == 1 {
        2
    } else if result == -1 {
        0
    } else {
        1
    }
}

/// Which side the first engine plays in the game with the given index:
/// White exactly in the even-numbered games.
pub fn first_engine_plays_white(game_index: u64) -> (w: bool)
    ensures
        w == (game_index % 2 == 0),
{
    game_index % 2 == 0
}

/// The half-points each engine earns from one finished game: `result` is
/// the game's outcome from White's perspective, and `first_plays_white`
/// says which engine held White. The two awards always sum to the two
/// half-points of one game.
pub fn game_half_points(result: i8, first_plays_white: bool) -> (hp: (u8, u8))
    requires
        result == 1i8 || result == 0i8 || result == -1i8,
    ensures
        hp.0 as int == (if first_plays_white {
            white_half_points(result as int)
        } else {
            2 - white_half_points(result as int)
        }),
        hp.0 as int + hp.1 as int == 2,
{
    let white: u8 = if result == 1 {
        2
    } else if result == -1 {
        0
    } else {
        1
    };
    if first_plays_white {
        (white, 2 - white)
    } else {
        (2 - white, white)
    }
}

} // verus!
