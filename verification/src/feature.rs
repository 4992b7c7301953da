//! The feature encoding of a position.
//!
//! A position maps to a vector of exactly 65 small integers: entries 0
//! through 63 describe the board squares in rank-major order (0 for an empty
//! square, otherwise the piece kind index plus one, negated for a black
//! piece), and entry 64 is +1 when White is to move and -1 otherwise.

use vstd::prelude::*;
use crate::rules::{occupant_on, spec_occupant, spec_white_to_move, white_to_move};

verus! {

/// The number of features encoding one position: 64 squares plus the side
/// to move.
pub const NUM_FEATURES: usize = 65;

/// The feature entry for a square's occupant: 0 for empty, otherwise the
/// piece kind index plus one, negated for a black piece. Occupied squares
/// never encode to 0.
pub open spec fn occupant_code(o: Option<(u8, bool)>) -> int {
    match o {
        Option::None => 0,
        Option::Some(p) => if p.1 {
            p.0 + 1
        } else {
            -(p.0 + 1)
        },
    }
}

/// The feature entry for the side to move: +1 for White, -1 for Black.
pub open spec fn side_code(white: bool) -> int {
    if white {
        1
    } else {
        -1
    }
}

/// An ordered sequence of exactly `NUM_FEATURES` entries encoding one
/// position as described at the module level.
pub struct FeatureVector {
    entries: Vec<i8>,
}

impl FeatureVector {
    /// The mathematical view: the sequence of entries.
    pub closed spec fn view(&self) -> Seq<i8> {
        self.entries@
    }

    /// Well-formed feature vectors: length 65, square entries of magnitude
    /// at most 6, and a side entry of +1 or -1.
    pub open spec fn wf(&self) -> bool {
        &&& self@.len() == NUM_FEATURES
        &&& forall|i: int| 0 <= i < 64 ==> -6 <= #[trigger] self@[i] <= 6
        &&& (self@[64] == 1 || self@[64] == -1)
    }

    /// Whether this vector is exactly the feature encoding of board `b`.
    pub open spec fn encodes(&self, b: chess::Board) -> bool {
        &&& self@.len() == NUM_FEATURES
        &&& forall|i: int| 0 <= i < 64 ==> #[trigger] self@[i] as int == occupant_code(
            spec_occupant(b, i),
        )
        &&& self@[64] as int == side_code(spec_white_to_move(b))
    }

    /// The number of entries.
    pub fn len(&self) -> (n: usize)
        ensures
            n == self@.len(),
    {
        self.entries.len()
    }

    /// The entry at index `i`.
    pub fn get(&self, i: usize) -> (e: i8)
        requires
            i < self@.len(),
        ensures
            e == self@[i as int],
    {
        self.entries[i]
    }

    /// All entries, for handing the encoding to an evaluator.
    pub fn as_entries(&self) -> (v: &Vec<i8>)
        ensures
            v@ == self@,
    {
        &self.entries
    }

    /// An entrywise copy.
    pub fn duplicate(&self) -> (r: FeatureVector)
        ensures
            r@ == self@,
    {
        let mut entries: Vec<i8> = Vec::new();
        let mut i: usize = 0;
        while i < self.entries.len()
            invariant
                i <= self.entries@.len(),
                entries@ == self.entries@.take(i as int),
            decreases self.entries@.len() - i,
        {
            entries.push(self.entries[i]);
            proof {
                assert(entries@ =~= self.entries@.take(i as int + 1));
            }
            i = i + 1;
        }
        proof {
            assert(entries@ =~= self.entries@);
        }
        FeatureVector { entries }
    }
}

/// The feature encoding of a board. Every result is well formed, occupied
/// squares never encode to 0, and the last entry states the side to move.
pub fn features(board: &chess::Board) -> (f: FeatureVector)
    ensures
        f.encodes(*board),
        f.wf(),
        forall|i: int| 0 <= i < 64 ==> (#[trigger] f@[i] == 0 <==> spec_occupant(*board, i)
            is None),
{
    let mut entries: Vec<i8> = Vec::new();
    let mut idx: usize = 0;
    while idx < 64
        invariant
            idx <= 64,
            entries@.len() == idx,
            forall|i: int| 0 <= i < idx ==> #[trigger] entries@[i] as int == occupant_code(
                spec_occupant(*board, i),
            ),
            forall|i: int| 0 <= i < idx ==> -6 <= #[trigger] entries@[i] <= 6,
            forall|i: int| 0 <= i < idx ==> (#[trigger] entries@[i] == 0 <==> spec_occupant(
                *board,
                i,
            ) is None),
        decreases 64 - idx,
    {
        let rank_index: u8 = (idx / 8) as u8;
        let file_index: u8 = (idx % 8) as u8;
        let code: i8 = match occupant_on(board, rank_index, file_index) {
            Option::None => 0,
            Option::Some((kind, white)) => {
                let magnitude = (kind + 1) as i8;
                if white {
                    magnitude
                } else {
                    -magnitude
                }
            },
        };
        proof {
            assert(rank_index as int * 8 + file_index as int == idx as int);
        }
        entries.push(code);
        idx = idx + 1;
    }
    let side: i8 = if white_to_move(board) {
        1
    } else {
        -1
    };
    entries.push(side);
    FeatureVector { entries }
}

} // verus!
