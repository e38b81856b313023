use vstd::prelude::*;

verus! {

/// The recoverable failures of the engine.
#[derive(Debug, Copy, Clone, PartialEq, Eq, Structural)]
pub enum GameError {
    /// A placement targeted a cell that already holds a piece.
    OccupiedCell,
    /// A row or column index lay outside [0, 4).
    InvalidCoordinate,
    /// A handoff index lay outside the current pool bounds.
    InvalidPieceIndex,
    /// A policy was asked to act on a board with no empty cell.
    NoLegalMove,
    /// An operation was invoked in a state its contract forbids, such as a
    /// handoff of `None` while pieces remain in the pool.
    PreconditionViolated,
}

} // verus!
