use vstd::prelude::*;

use crate::game::Action;
use crate::game::Game;
use crate::game::GameError;
use crate::policies::policy::Policy;

verus! {

/// Chooses a uniformly random empty cell and a uniformly random handoff
/// piece (no handoff once the pool is empty). No search at all.
#[derive(Clone)]
pub struct RandomPolicy {}

impl Policy for RandomPolicy {
    fn new() -> Self {
        RandomPolicy {  }
    }

    fn action(&self, game: &Game) -> (r: Result<Action, GameError>) {
        let available_positions = game.board.available_positions();
        if available_positions.len() == 0 {
            return Err(GameError::NoLegalMove);
        }
        let piece_index: Option<usize> = if game.available_pieces.len() == 0 {
            None
        } else {
            Some(crate::rng::random_below(game.available_pieces.len()))
        };
        let k = crate::rng::random_below(available_positions.len());
        let position = available_positions[k];
        Ok(Action { row: position.0, col: position.1, piece_index })
    }
}

} // verus!
