//! The error kinds of the engine core.

use vstd::prelude::*;

verus! {

/// Failures of the engine core. None of these is retried internally: a
/// failure aborts the current operation without substituting a default
/// move or value.
#[derive(Clone, Copy, Debug, PartialEq, Eq, Structural)]
pub enum EngineError {
    /// Search was invoked on a position with no legal continuation.
    NoLegalMoves,
    /// A persisted engine snapshot was missing or structurally invalid.
    DeserializationError,
    /// The game loop reached a state that correct operation never produces,
    /// such as a rejected move or a result kind that self-play cannot yield.
    InvariantViolation,
}

} // verus!
