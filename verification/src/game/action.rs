use vstd::prelude::*;

verus! {

/// One move: the cell where the selected piece is placed, and the index into
/// the remaining pool of the piece handed to the opponent. The index is `None`
/// exactly when the pool is empty (the final move of a game).
#[derive(Debug, Copy, Clone, PartialEq, Eq)]
pub struct Action {
    pub row: usize,
    pub col: usize,
    pub piece_index: Option<usize>,
}

} // verus!
