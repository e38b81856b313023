use vstd::prelude::*;

use crate::game::Game;
use crate::game::Player;
use crate::policies::policy::Policy;

verus! {

/// Drives one fresh game between two policies to its terminal result.
pub struct Runner<P1: Policy, P2: Policy> {
    pub game: Game,
    pub player1: P1,
    pub player2: P2,
}

impl<P1: Policy, P2: Policy> Runner<P1, P2> {
    pub fn new(player1: P1, player2: P2) -> (r: Runner<P1, P2>)
        ensures
            r.player1 == player1,
            r.player2 == player2,
            !r.game.spec_game_over(),
            r.game.board.avail_seq().len() == 16,
            r.game.available_pieces@.len() == 15,
            r.game.current_player == Player::Player1,
            r.game.pieces_wf(),
    {
        Runner { game: Game::new(), player1, player2 }
    }

    /// Alternates actions from the two policies, applying each through
    /// `play_turn`, until the game is over; every turn fills one cell, so a
    /// run ends after at most 16 turns. The result is `Some` winner when a
    /// line was completed — the player prior to the final switch — and
    /// `None` for a draw on a full board. An illegal proposal would break
    /// the policy contract; the runner never retries or repairs one.
    pub fn run(&mut self) -> (r: Option<Player>)
        ensures
            final(self).game.spec_game_over(),
            final(self).game.board.spec_win() ==> r == Some(
                final(self).game.current_player.spec_other(),
            ),
            !final(self).game.board.spec_win() ==> r is None
                && !final(self).game.board.has_empty_cell(),
    {
        let mut done = self.game.is_game_over();
        while !done
            invariant
                done == self.game.spec_game_over(),
            decreases self.game.board.avail_seq().len(),
        {
            let act = if matches!(self.game.current_player, Player::Player1) {
                self.player1.action(&self.game)
            } else {
                self.player2.action(&self.game)
            };
            match act {
                Ok(a) => {
                    let res = self.game.play_turn(a.row, a.col, a.piece_index);
                    match res {
                        Ok(_) => {},
                        Err(_) => {
                            proof {
                                assert(false);
                            }
                        },
                    }
                },
                Err(_) => {
                    proof {
                        assert(false);
                    }
                },
            }
            done = self.game.is_game_over();
        }
        self.game.judge_winner()
    }
}

} // verus!
