use vstd::prelude::*;

use crate::game::Action;
use crate::game::Game;
use crate::game::GameError;
use crate::policies::policy::Policy;
use crate::policies::random_policy::RandomPolicy;

verus! {

/// An extension point for incremental tree search. No selection,
/// backpropagation or expansion rule is fixed for it yet, so until one is
/// specified this policy chooses a uniformly random legal move.
#[derive(Clone)]
pub struct MCTSPolicy {}

impl Policy for MCTSPolicy {
    fn new() -> Self {
        MCTSPolicy {  }
    }

    fn action(&self, game: &Game) -> (r: Result<Action, GameError>) {
        let fallback = RandomPolicy::new();
        fallback.action(game)
    }
}

} // verus!
