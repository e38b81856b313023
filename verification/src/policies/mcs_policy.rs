use vstd::prelude::*;
use vstd::pervasive::VecAdditionalExecFns;

use crate::game::Action;
use crate::game::Game;
use crate::game::GameError;
use crate::game::Player;
use crate::policies::one_step_look_ahead_policy::OneStepLookAheadPolicy;
use crate::policies::policy::Policy;
use crate::utils::TimeKeeper;

verus! {

/// A cap on the number of rollout rounds, so the sampling loop provably
/// terminates even if the clock misbehaves; it is far beyond what any time
/// budget reaches in practice.
pub const MAX_ROUNDS: u64 = 1_000_000_000;

/// Monte Carlo sampling: every available action is scored by repeated
/// rollouts to a terminal state (both sides played by the one-step
/// look-ahead policy), +1 when the mover wins, -1 when the opponent does,
/// 0 on a draw. Rollouts run round-robin across all candidates until the
/// wall-clock budget expires — at least one full round always runs — and
/// the action with the highest average score wins, ties broken by
/// enumeration order. With an empty pool it delegates to the look-ahead
/// policy, since no branching decision remains.
#[derive(Clone)]
pub struct MCSPolicy {
    pub policy: OneStepLookAheadPolicy,
    pub max_time_ns: u64,
}

impl Policy for MCSPolicy {
    fn new() -> Self {
        MCSPolicy { policy: OneStepLookAheadPolicy::new(), max_time_ns: 10_000_000 }
    }

    fn action(&self, game: &Game) -> (r: Result<Action, GameError>) {
        if game.available_pieces.len() == 0 {
            // Nothing to hand over: placing to win now is all that is left,
            // which is exactly the look-ahead policy's move.
            return self.policy.action(game);
        }
        let actions = game.available_actions();
        if actions.len() == 0 {
            return Err(GameError::NoLegalMove);
        }
        let n = actions.len();
        let mut next_states: Vec<Game> = Vec::new();
        let mut k: usize = 0;
        while k < n
            invariant
                k <= n,
                n == actions@.len(),
                next_states@.len() == k,
                forall|j: int| 0 <= j < n ==> game.action_valid(#[trigger] actions@[j]),
            decreases n - k,
        {
            let a = actions[k];
            let mut next_state = game.duplicate();
            let res = next_state.play_turn(a.row, a.col, a.piece_index);
            match res {
                Ok(_) => {},
                Err(_) => {
                    proof {
                        assert(false);
                    }
                },
            }
            next_states.push(next_state);
            k = k + 1;
        }
        // Play out as many round-robin rollouts as the time budget allows;
        // every candidate is visited once per round, so all counts stay
        // equal and comparing score sums compares average scores.
        let time_keeper = TimeKeeper::new(self.max_time_ns);
        let mut scores: Vec<i64> = Vec::new();
        let mut z: usize = 0;
        while z < n
            invariant
                z <= n,
                scores@.len() == z,
                forall|j: int| 0 <= j < z ==> scores@[j] == 0i64,
            decreases n - z,
        {
            scores.push(0i64);
            z = z + 1;
        }
        let mut rounds: u64 = 0;
        let mut out_of_time: bool = false;
        while rounds < MAX_ROUNDS && !out_of_time
            invariant
                rounds <= MAX_ROUNDS,
                scores@.len() == n,
                next_states@.len() == n,
                n == actions@.len(),
                forall|j: int|
                    0 <= j < n ==> -(rounds as int) <= #[trigger] scores@[j] <= rounds as int,
            decreases MAX_ROUNDS - rounds,
        {
            let mut i: usize = 0;
            while i < n
                invariant
                    i <= n,
                    rounds < MAX_ROUNDS,
                    scores@.len() == n,
                    next_states@.len() == n,
                    forall|j: int|
                        0 <= j < i ==> -(rounds as int + 1) <= #[trigger] scores@[j] <= rounds
                            as int + 1,
                    forall|j: int|
                        i <= j < n ==> -(rounds as int) <= #[trigger] scores@[j] <= rounds as int,
                decreases n - i,
            {
                let winner = play_out(&next_states[i], &self.policy);
                match winner {
                    Some(w) => {
                        let current = scores[i];
                        if w == game.current_player {
                            scores.set(i, current + 1);
                        } else {
                            scores.set(i, current - 1);
                        }
                    },
                    None => {},
                }
                i = i + 1;
            }
            rounds = rounds + 1;
            out_of_time = time_keeper.is_time_over();
        }
        // The highest average score wins; strict comparison keeps the first
        // of equally scored actions, the promised tie-break.
        let mut best: usize = 0;
        let mut i: usize = 1;
        while i < n
            invariant
                1 <= i <= n,
                best < n,
                scores@.len() == n,
            decreases n - i,
        {
            if scores[i] > scores[best] {
                best = i;
            }
            i = i + 1;
        }
        Ok(actions[best])
    }
}

/// One rollout: a copy of `game` is driven to a terminal state with `policy`
/// choosing for both sides, and the outcome is reported. The result depends
/// on the policy's random choices, so nothing more is promised of it.
fn play_out(game: &Game, policy: &OneStepLookAheadPolicy) -> (r: Option<Player>) {
    let mut game_copy = game.duplicate();
    let mut done = game_copy.is_game_over();
    while !done
        invariant
            done == game_copy.spec_game_over(),
        decreases game_copy.board.avail_seq().len(),
    {
        let act = policy.action(&game_copy);
        match act {
            Ok(a) => {
                let res = game_copy.play_turn(a.row, a.col, a.piece_index);
                match res {
                    Ok(_) => {},
                    Err(_) => {
                        proof {
                            assert(false);
                        }
                    },
                }
            },
            Err(_) => {
                proof {
                    assert(false);
                }
            },
        }
        done = game_copy.is_game_over();
    }
    game_copy.judge_winner()
}

} // verus!
