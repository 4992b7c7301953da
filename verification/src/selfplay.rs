//! Self-play episodes and uniform-credit training updates.
//!
//! A `SelfPlay` value records one game the engine plays against itself:
//! the feature encoding of every visited position, starting with the
//! initial one, and the terminal outcome once the game ends. The driver
//! picks each move with the search engine and hands it to `step`, which
//! claims a draw as soon as one is claimable, applies the move otherwise,
//! records the reached position, and maps the rules engine's result to the
//! outcome label. `episode_updates` then turns a finished episode into one
//! training update per recorded position, every update carrying the same
//! terminal outcome.

use vstd::prelude::*;
use crate::errors::EngineError;
use crate::feature::{features, FeatureVector};
use crate::rules::{
    game_board,
    game_can_draw,
    game_declare_draw,
    game_make_move,
    game_result_code,
    new_game,
    spec_can_draw,
    spec_game_after_draw,
    spec_game_after_move,
    spec_game_board,
    spec_game_move_ok,
    spec_game_result,
};

verus! {

/// The outcome label for a rules-engine result code: +1 when White won
/// (White checkmates or Black resigns), -1 when Black won, 0 for a
/// stalemate or a declared draw. An accepted draw offer or an unknown code
/// has no label: self-play never offers draws, so reaching one is an
/// invariant violation.
pub open spec fn outcome_of_code(c: u8) -> Option<i8> {
    if c == 0 || c == 3 {
        Some(1i8)
    } else if c == 1 || c == 2 {
        Some(-1i8)
    } else if c == 4 || c == 6 {
        Some(0i8)
    } else {
        None
    }
}

/// Maps a rules-engine result code to the outcome label, failing on the
/// codes that correct self-play can never produce.
pub fn outcome_from_result(c: u8) -> (r: Result<i8, EngineError>)
    ensures
        (r matches Ok(o) && outcome_of_code(c) == Some(o)) || (r matches Err(e) && e
            == EngineError::InvariantViolation && outcome_of_code(c) is None),
{
    if c == 0 || c == 3 {
        Result::Ok(1)
    } else if c == 1 || c == 2 {
        Result::Ok(-1)
    } else if c == 4 || c == 6 {
        Result::Ok(0)
    } else {
        Result::Err(EngineError::InvariantViolation)
    }
}

/// One self-play game in progress: the game state, the feature encodings
/// of every position visited so far, and the outcome once the game ended.
pub struct SelfPlay {
    game: chess::Game,
    positions: Vec<FeatureVector>,
    outcome: Option<i8>,
}

impl SelfPlay {
    /// The game state.
    pub closed spec fn game_spec(&self) -> chess::Game {
        self.game
    }

    /// The recorded position encodings, in visiting order.
    pub closed spec fn positions_spec(&self) -> Seq<FeatureVector> {
        self.positions@
    }

    /// The outcome label, once the game has ended.
    pub closed spec fn outcome_spec(&self) -> Option<i8> {
        self.outcome
    }

    /// Every recorded encoding is well formed, and a recorded outcome is
    /// exactly the label of the rules engine's reported result.
    pub open spec fn wf(&self) -> bool {
        &&& (forall|i: int| 0 <= i < self.positions_spec().len()
            ==> (#[trigger] self.positions_spec()[i]).wf())
        &&& (self.outcome_spec() matches Some(o) ==> (spec_game_result(self.game_spec())
            matches Some(c) && outcome_of_code(c) == Some(o)))
    }

    /// A fresh self-play game at the standard initial position, with that
    /// position's encoding already recorded; its side entry is +1, since
    /// White is to move at the start.
    pub fn new() -> (sp: SelfPlay)
        ensures
            sp.wf(),
            sp.outcome_spec() is None,
            spec_game_result(sp.game_spec()) is None,
            sp.positions_spec().len() == 1,
            sp.positions_spec()[0].encodes(spec_game_board(sp.game_spec())),
            sp.positions_spec()[0]@[64] == 1i8,
    {
        let game = new_game();
        let board = game_board(&game);
        let fv = features(&board);
        let mut positions: Vec<FeatureVector> = Vec::new();
        positions.push(fv);
        SelfPlay { game, positions, outcome: Option::None }
    }

    /// The current position, for the driver to search.
    pub fn board(&self) -> (b: chess::Board)
        ensures
            b == spec_game_board(self.game_spec()),
    {
        game_board(&self.game)
    }

    /// Whether the game has ended.
    pub fn finished(&self) -> (f: bool)
        ensures
            f == (self.outcome_spec() is Some),
    {
        self.outcome.is_some()
    }

    /// The outcome label, once the game has ended.
    pub fn outcome(&self) -> (o: Option<i8>)
        ensures
            o == self.outcome_spec(),
    {
        self.outcome
    }

    /// The recorded position encodings.
    pub fn positions(&self) -> (p: &Vec<FeatureVector>)
        ensures
            p@ == self.positions_spec(),
    {
        &self.positions
    }

    /// Advances the game by one ply. If a draw is claimable it is claimed
    /// at once, ending the game with outcome 0 and leaving the handed move
    /// unplayed. Otherwise the move is applied, the reached position's
    /// encoding is recorded, and if the game thereby ends, the rules
    /// engine's result is mapped to the outcome label. A rejected move, or
    /// a result that correct self-play cannot produce, is an invariant
    /// violation.
    pub fn step(&mut self, m: &chess::ChessMove) -> (r: Result<(), EngineError>)
        requires
            old(self).wf(),
            old(self).outcome_spec() is None,
            spec_game_result(old(self).game_spec()) is None,
        ensures
            final(self).wf(),
            spec_can_draw(old(self).game_spec()) ==> {
                &&& r == Result::<(), EngineError>::Ok(())
                &&& final(self).outcome_spec() == Some(0i8)
                &&& final(self).positions_spec() == old(self).positions_spec()
                &&& final(self).game_spec() == spec_game_after_draw(old(self).game_spec())
            },
            !spec_can_draw(old(self).game_spec()) && !spec_game_move_ok(
                old(self).game_spec(),
                *m,
            ) ==> {
                &&& r == Result::<(), EngineError>::Err(EngineError::InvariantViolation)
                &&& *final(self) == *old(self)
            },
            !spec_can_draw(old(self).game_spec()) && spec_game_move_ok(
                old(self).game_spec(),
                *m,
            ) ==> {
                &&& final(self).game_spec() == spec_game_after_move(old(self).game_spec(), *m)
                &&& final(self).positions_spec().len() == old(self).positions_spec().len() + 1
                &&& (forall|i: int| 0 <= i < old(self).positions_spec().len()
                    ==> final(self).positions_spec()[i] == old(self).positions_spec()[i])
                &&& final(self).positions_spec().last().encodes(
                    spec_game_board(final(self).game_spec()),
                )
                &&& match spec_game_result(final(self).game_spec()) {
                    None => r == Result::<(), EngineError>::Ok(()) && final(self).outcome_spec()
                        is None,
                    Some(c) => match outcome_of_code(c) {
                        Some(o) => r == Result::<(), EngineError>::Ok(())
                            && final(self).outcome_spec() == Some(o),
                        None => r == Result::<(), EngineError>::Err(
                            EngineError::InvariantViolation,
                        ) && final(self).outcome_spec() is None,
                    },
                }
            },
    {
        if game_can_draw(&self.game) {
            game_declare_draw(&mut self.game);
            self.outcome = Option::Some(0);
            return Result::Ok(());
        }
        let ok = game_make_move(&mut self.game, m);
        if !ok {
            return Result::Err(EngineError::InvariantViolation);
        }
        let board = game_board(&self.game);
        let fv = features(&board);
        self.positions.push(fv);
        match game_result_code(&self.game) {
            Option::None => Result::Ok(()),
            Option::Some(c) => {
                match outcome_from_result(c) {
                    Result::Ok(o) => {
                        self.outcome = Option::Some(o);
                        Result::Ok(())
                    },
                    Result::Err(e) => Result::Err(e),
                }
            },
        }
    }
}

/// One training update per recorded position of a finished episode, each
/// carrying the episode's terminal outcome: uniform credit assignment.
pub fn episode_updates(outcome: i8, positions: &Vec<FeatureVector>) -> (u: Vec<
    (FeatureVector, i8),
>)
    ensures
        u@.len() == positions@.len(),
        forall|i: int| 0 <= i < u@.len() ==> (#[trigger] u@[i]).0@ == positions@[i]@ && u@[i].1
            == outcome,
{
    let mut u: Vec<(FeatureVector, i8)> = Vec::new();
    let mut i: usize = 0;
    while i < positions.len()
        invariant
            i <= positions@.len(),
            u@.len() == i,
            forall|j: int| 0 <= j < i ==> (#[trigger] u@[j]).0@ == positions@[j]@ && u@[j].1
                == outcome,
        decreases positions@.len() - i,
    {
        u.push((positions[i].duplicate(), outcome));
        i = i + 1;
    }
    u
}

/// Aggregate counts over a training run: the game results, and the number
/// of training updates issued — every game contributes exactly one update
/// per recorded position, so after a run the update count is the sum over
/// its episodes of the episode's length.
pub struct TrainStats {
    pub white_wins: u64,
    pub black_wins: u64,
    pub draws: u64,
    pub updates_issued: u64,
}

impl TrainStats {
    /// Fresh counters.
    pub fn new() -> (s: TrainStats)
        ensures
            s.white_wins == 0,
            s.black_wins == 0,
            s.draws == 0,
            s.updates_issued == 0,
    {
        TrainStats { white_wins: 0, black_wins: 0, draws: 0, updates_issued: 0 }
    }

    /// Counts one finished game by its outcome label, together with the
    /// number of training updates its episode issued.
    pub fn record(&mut self, outcome: i8, num_updates: u64)
        requires
            old(self).white_wins < u64::MAX,
            old(self).black_wins < u64::MAX,
            old(self).draws < u64::MAX,
            old(self).updates_issued + num_updates <= u64::MAX,
        ensures
            final(self).updates_issued == old(self).updates_issued + num_updates,
            final(self).white_wins == old(self).white_wins + (if outcome == 1i8 {
                1int
            } else {
                0int
            }),
            final(self).black_wins == old(self).black_wins + (if outcome == -1i8 {
                1int
            } else {
                0int
            }),
            final(self).draws == old(self).draws + (if outcome == 0i8 {
                1int
            } else {
                0int
            }),
    {
        if outcome == 1 {
            self.white_wins = self.white_wins + 1;
        } else if outcome == -1 {
            self.black_wins = self.black_wins + 1;
        } else if outcome == 0 {
            self.draws = self.draws + 1;
        }
        self.updates_issued = self.updates_issued + num_updates;
    }
}

} // verus!
