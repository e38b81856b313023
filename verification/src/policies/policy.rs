use vstd::prelude::*;

use crate::game::Action;
use crate::game::Game;
use crate::game::GameError;
use crate::game::Piece;

verus! {

/// A decision source: given a game, it produces one move for the active
/// player without mutating the game (hypothetical exploration happens on
/// internal copies). It answers `Err(NoLegalMove)` exactly when the board
/// has no empty cell; on every other game it returns an action naming an
/// empty cell, whose handoff index is present and in bounds exactly when
/// the pool is non-empty.
pub trait Policy: Sized {
    fn new() -> Self;

    fn action(&self, game: &Game) -> (r: Result<Action, GameError>)
        ensures
            game.board.has_empty_cell() ==> (r matches Ok(a) && game.action_valid(a)),
            !game.board.has_empty_cell() ==> r == Err::<Action, GameError>(GameError::NoLegalMove),
    ;
}

/// The index of the first occurrence of `piece` in `pool`.
pub(crate) fn find_piece_index(pool: &Vec<Piece>, piece: Piece) -> (r: Option<usize>)
    ensures
        r matches Some(i) ==> i < pool@.len() && pool@[i as int] == piece,
        r is None ==> forall|j: int| 0 <= j < pool@.len() ==> pool@[j] != piece,
{
    let mut i: usize = 0;
    while i < pool.len()
        invariant
            i <= pool@.len(),
            forall|j: int| 0 <= j < i ==> pool@[j] != piece,
        decreases pool@.len() - i,
    {
        if pool[i] == piece {
            return Some(i);
        }
        i = i + 1;
    }
    None
}

/// Two sequences with the same multiset draw their elements from each other.
pub(crate) proof fn lemma_permutation_elements<T>(a: Seq<T>, b: Seq<T>)
    requires
        a.to_multiset() == b.to_multiset(),
    ensures
        forall|k: int| 0 <= k < b.len() ==> a.contains(#[trigger] b[k]),
{
    assert forall|k: int| 0 <= k < b.len() implies a.contains(#[trigger] b[k]) by {
        a.to_multiset_ensures();
        b.to_multiset_ensures();
        assert(b.contains(b[k]));
        assert(b.to_multiset().count(b[k]) > 0);
        assert(a.to_multiset().count(b[k]) > 0);
    }
}

} // verus!
