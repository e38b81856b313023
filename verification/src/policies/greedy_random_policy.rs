use vstd::prelude::*;

use crate::game::Action;
use crate::game::Game;
use crate::game::GameError;
use crate::policies::policy::find_piece_index;
use crate::policies::policy::Policy;

verus! {

/// A one-ply safety search without randomized ordering: play the immediate
/// win if there is one; otherwise take the first (cell, handoff) pair, in
/// enumeration order, that does not let the opponent win next turn; if every
/// pair loses, fall back to the first available cell with a random handoff.
#[derive(Clone)]
pub struct GreedyRandomPolicy {}

impl Policy for GreedyRandomPolicy {
    fn new() -> Self {
        GreedyRandomPolicy {  }
    }

    fn action(&self, game: &Game) -> (r: Result<Action, GameError>)
        ensures
            game.board.has_empty_cell() && (exists|j: int|
                #[trigger] game.board.wins_at(game.selected_piece, j)) ==> (r matches Ok(a)
                && game.board.wins_at(game.selected_piece, 4 * a.row + a.col) && (forall|j: int|
                0 <= j < 4 * a.row + a.col ==> !game.board.wins_at(game.selected_piece, j))),
            game.board.has_empty_cell() && (forall|j: int|
                0 <= j < 16 ==> !game.board.wins_at(game.selected_piece, j))
                && game.available_pieces@.len() > 0 && game.safe_pair_exists() ==> (r matches Ok(a)
                && a.piece_index matches Some(k) && game.pair_is_safe(
                4 * a.row + a.col,
                game.available_pieces@[k as int],
            )),
    {
        let available_positions = game.board.available_positions();
        if available_positions.len() == 0 {
            return Err(GameError::NoLegalMove);
        }
        let winning_cell = game.board.find_winning_cell(game.selected_piece);
        match winning_cell {
            Some(cell) => {
                // The game is won by this placement, so the handoff does not
                // matter: pick a random piece, or none once the pool is empty.
                let piece_index: Option<usize> = if game.available_pieces.len() == 0 {
                    None
                } else {
                    Some(crate::rng::random_below(game.available_pieces.len()))
                };
                return Ok(Action { row: cell.0, col: cell.1, piece_index });
            },
            None => {},
        }
        let mut t: usize = 0;
        while t < available_positions.len()
            invariant
                t <= available_positions@.len(),
                forall|j: int| 0 <= j < 16 ==> !game.board.wins_at(game.selected_piece, j),
                available_positions@ == game.board.avail_seq(),
                forall|u: int|
                    0 <= u < available_positions@.len() ==> (#[trigger] available_positions@[u]).0
                        < 4 && available_positions@[u].1 < 4 && !game.board.cell_occupied(
                        4 * (available_positions@[u].0 as int) + available_positions@[u].1,
                    ),
                forall|u: int, k: int|
                    #![trigger available_positions@[u], game.available_pieces@[k]]
                    0 <= u < t && 0 <= k < game.available_pieces@.len() ==> !game.pair_is_safe(
                        4 * (available_positions@[u].0 as int) + available_positions@[u].1,
                        game.available_pieces@[k],
                    ),
            decreases available_positions@.len() - t,
        {
            let cand = available_positions[t];
            let mut p: usize = 0;
            while p < game.available_pieces.len()
                invariant
                    p <= game.available_pieces@.len(),
                    t < available_positions@.len(),
                    forall|j: int| 0 <= j < 16 ==> !game.board.wins_at(game.selected_piece, j),
                    cand == available_positions@[t as int],
                    cand.0 < 4,
                    cand.1 < 4,
                    !game.board.cell_occupied(4 * (cand.0 as int) + cand.1),
                    forall|k: int|
                        0 <= k < p ==> !game.pair_is_safe(
                            4 * (cand.0 as int) + cand.1,
                            #[trigger] game.available_pieces@[k],
                        ),
                decreases game.available_pieces@.len() - p,
            {
                let piece = game.available_pieces[p];
                let idx_opt = find_piece_index(&game.available_pieces, piece);
                match idx_opt {
                    Some(idx) => {
                        let mut game_copy = game.duplicate();
                        let res = game_copy.play_turn(cand.0, cand.1, Some(idx));
                        match res {
                            Ok(_) => {},
                            Err(_) => {
                                proof {
                                    assert(false);
                                }
                            },
                        }
                        proof {
                            assert(game_copy.board == game.board.spec_place(
                                4 * (cand.0 as int) + cand.1,
                                game.selected_piece,
                            ));
                        }
                        let opponent_win = game_copy.board.find_winning_cell(piece);
                        match opponent_win {
                            None => {
                                proof {
                                    assert(game.pair_is_safe(4 * (cand.0 as int) + cand.1, piece));
                                }
                                return Ok(
                                    Action { row: cand.0, col: cand.1, piece_index: Some(idx) },
                                );
                            },
                            Some(rc) => {
                                proof {
                                    assert(game_copy.board.wins_at(piece, 4 * (rc.0 as int) + rc.1));
                                    assert(!game.pair_is_safe(4 * (cand.0 as int) + cand.1, piece));
                                }
                            },
                        }
                    },
                    None => {
                        proof {
                            assert(false);
                        }
                    },
                }
                p = p + 1;
            }
            t = t + 1;
        }
        // Every pair loses: fall back to the first available cell.
        proof {
            if game.safe_pair_exists() {
                let (ci, k) = choose|ci: int, k: int|
                    #![trigger game.pair_is_safe(ci, game.available_pieces@[k])]
                    0 <= ci < 16 && !game.board.cell_occupied(ci) && 0 <= k
                        < game.available_pieces@.len() && game.pair_is_safe(
                        ci,
                        game.available_pieces@[k],
                    );
                let x: (usize, usize) = (((ci / 4) as usize), ((ci % 4) as usize));
                assert(available_positions@.contains(x));
                let u = choose|u: int|
                    0 <= u < available_positions@.len() && #[trigger] available_positions@[u] == x;
                assert(4 * (available_positions@[u].0 as int) + available_positions@[u].1 == ci);
                assert(false);
            }
        }
        let piece_index: Option<usize> = if game.available_pieces.len() == 0 {
            None
        } else {
            Some(crate::rng::random_below(game.available_pieces.len()))
        };
        let position = available_positions[0];
        Ok(Action { row: position.0, col: position.1, piece_index })
    }
}

} // verus!
