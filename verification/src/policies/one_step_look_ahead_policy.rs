use vstd::prelude::*;

use crate::game::Action;
use crate::game::Game;
use crate::game::GameError;
use crate::game::Piece;
use crate::policies::policy::find_piece_index;
use crate::policies::policy::lemma_permutation_elements;
use crate::policies::policy::Policy;

verus! {

/// A depth-2 minimax approximation: play the immediate win if there is one;
/// otherwise search all (cell, handoff) pairs in a shuffled order, to avoid
/// deterministic bias, and take the first pair after which the opponent has
/// no winning cell; if every pair loses, fall back to a random legal move.
#[derive(Clone)]
pub struct OneStepLookAheadPolicy {}

impl Policy for OneStepLookAheadPolicy {
    fn new() -> Self {
        OneStepLookAheadPolicy {  }
    }

    fn action(&self, game: &Game) -> (r: Result<Action, GameError>)
        ensures
            game.board.has_empty_cell() && (exists|j: int|
                #[trigger] game.board.wins_at(game.selected_piece, j)) ==> (r matches Ok(a)
                && game.board.wins_at(game.selected_piece, 4 * a.row + a.col) && (forall|j: int|
                0 <= j < 4 * a.row + a.col ==> !game.board.wins_at(game.selected_piece, j))),
            game.board.has_empty_cell() && (forall|j: int|
                0 <= j < 16 ==> !game.board.wins_at(game.selected_piece, j))
                && game.available_pieces@.len() > 0 && game.safe_pair_exists() ==> (r matches Ok(a)
                && a.piece_index matches Some(k) && game.pair_is_safe(
                4 * a.row + a.col,
                game.available_pieces@[k as int],
            )),
    {
        let winning_cell = game.board.find_winning_cell(game.selected_piece);
        let mut available_positions = game.board.available_positions();
        if available_positions.len() == 0 {
            return Err(GameError::NoLegalMove);
        }
        let ghost original_positions = available_positions@;
        crate::rng::shuffle(&mut available_positions);
        proof {
            lemma_permutation_elements(original_positions, available_positions@);
            lemma_permutation_elements(available_positions@, original_positions);
            assert forall|u: int| 0 <= u < available_positions@.len() implies (
            #[trigger] available_positions@[u]).0 < 4 && available_positions@[u].1 < 4
                && !game.board.cell_occupied(
                4 * (available_positions@[u].0 as int) + available_positions@[u].1,
            ) by {
                assert(original_positions.contains(available_positions@[u]));
                let w = choose|w: int|
                    0 <= w < original_positions.len() && original_positions[w]
                        == available_positions@[u];
                assert(original_positions[w].0 < 4);
            }
        }
        match winning_cell {
            Some(cell) => {
                // The game is won by this placement, so the handoff does not
                // matter: pick a random piece, or none once the pool is empty.
                let piece_index: Option<usize> = if game.available_pieces.len() == 0 {
                    None
                } else {
                    Some(crate::rng::random_below(game.available_pieces.len()))
                };
                return Ok(Action { row: cell.0, col: cell.1, piece_index });
            },
            None => {},
        }
        if game.available_pieces.len() == 0 {
            // No win available and nothing to hand over: play any cell.
            let position = available_positions[0];
            return Ok(Action { row: position.0, col: position.1, piece_index: None });
        }
        let mut shuffled_pieces: Vec<Piece> = Vec::new();
        let mut c: usize = 0;
        while c < game.available_pieces.len()
            invariant
                c <= game.available_pieces@.len(),
                shuffled_pieces@.len() == c,
                forall|j: int| 0 <= j < c ==> shuffled_pieces@[j] == game.available_pieces@[j],
            decreases game.available_pieces@.len() - c,
        {
            shuffled_pieces.push(game.available_pieces[c]);
            c = c + 1;
        }
        proof {
            assert(shuffled_pieces@ =~= game.available_pieces@);
        }
        let ghost original_pieces = shuffled_pieces@;
        crate::rng::shuffle(&mut shuffled_pieces);
        proof {
            lemma_permutation_elements(original_pieces, shuffled_pieces@);
            lemma_permutation_elements(shuffled_pieces@, original_pieces);
        }
        let mut t: usize = 0;
        while t < available_positions.len()
            invariant
                t <= available_positions@.len(),
                forall|j: int| 0 <= j < 16 ==> !game.board.wins_at(game.selected_piece, j),
                shuffled_pieces@.len() == game.available_pieces@.len(),
                forall|k: int|
                    0 <= k < shuffled_pieces@.len() ==> game.available_pieces@.contains(
                        #[trigger] shuffled_pieces@[k],
                    ),
                forall|u: int|
                    0 <= u < available_positions@.len() ==> (#[trigger] available_positions@[u]).0
                        < 4 && available_positions@[u].1 < 4 && !game.board.cell_occupied(
                        4 * (available_positions@[u].0 as int) + available_positions@[u].1,
                    ),
                forall|u: int, k: int|
                    #![trigger available_positions@[u], shuffled_pieces@[k]]
                    0 <= u < t && 0 <= k < shuffled_pieces@.len() ==> !game.pair_is_safe(
                        4 * (available_positions@[u].0 as int) + available_positions@[u].1,
                        shuffled_pieces@[k],
                    ),
            decreases available_positions@.len() - t,
        {
            let cand = available_positions[t];
            let mut p: usize = 0;
            while p < shuffled_pieces.len()
                invariant
                    p <= shuffled_pieces@.len(),
                    t < available_positions@.len(),
                    forall|j: int| 0 <= j < 16 ==> !game.board.wins_at(game.selected_piece, j),
                    shuffled_pieces@.len() == game.available_pieces@.len(),
                    forall|k: int|
                        0 <= k < shuffled_pieces@.len() ==> game.available_pieces@.contains(
                            #[trigger] shuffled_pieces@[k],
                        ),
                    cand == available_positions@[t as int],
                    cand.0 < 4,
                    cand.1 < 4,
                    !game.board.cell_occupied(4 * (cand.0 as int) + cand.1),
                    forall|k: int|
                        0 <= k < p ==> !game.pair_is_safe(
                            4 * (cand.0 as int) + cand.1,
                            #[trigger] shuffled_pieces@[k],
                        ),
                decreases shuffled_pieces@.len() - p,
            {
                let piece = shuffled_pieces[p];
                let idx_opt = find_piece_index(&game.available_pieces, piece);
                match idx_opt {
                    Some(idx) => {
                        let mut game_copy = game.duplicate();
                        let res = game_copy.play_turn(cand.0, cand.1, Some(idx));
                        match res {
                            Ok(_) => {},
                            Err(_) => {
                                proof {
                                    assert(false);
                                }
                            },
                        }
                        proof {
                            assert(game_copy.board == game.board.spec_place(
                                4 * (cand.0 as int) + cand.1,
                                game.selected_piece,
                            ));
                        }
                        let opponent_win = game_copy.board.find_winning_cell(piece);
                        match opponent_win {
                            None => {
                                proof {
                                    assert(game.pair_is_safe(4 * (cand.0 as int) + cand.1, piece));
                                }
                                return Ok(
                                    Action { row: cand.0, col: cand.1, piece_index: Some(idx) },
                                );
                            },
                            Some(rc) => {
                                proof {
                                    assert(game_copy.board.wins_at(piece, 4 * (rc.0 as int) + rc.1));
                                    assert(!game.pair_is_safe(4 * (cand.0 as int) + cand.1, piece));
                                }
                            },
                        }
                    },
                    None => {
                        proof {
                            assert(false);
                        }
                    },
                }
                p = p + 1;
            }
            t = t + 1;
        }
        // Every pair loses: play the first shuffled cell with a random handoff.
        proof {
            if game.safe_pair_exists() {
                let (ci, k) = choose|ci: int, k: int|
                    #![trigger game.pair_is_safe(ci, game.available_pieces@[k])]
                    0 <= ci < 16 && !game.board.cell_occupied(ci) && 0 <= k
                        < game.available_pieces@.len() && game.pair_is_safe(
                        ci,
                        game.available_pieces@[k],
                    );
                let x: (usize, usize) = (((ci / 4) as usize), ((ci % 4) as usize));
                assert(original_positions.contains(x));
                let w = choose|w: int|
                    0 <= w < original_positions.len() && #[trigger] original_positions[w] == x;
                assert(available_positions@.contains(original_positions[w]));
                let u = choose|u: int|
                    0 <= u < available_positions@.len() && #[trigger] available_positions@[u] == x;
                assert(original_pieces[k] == game.available_pieces@[k]);
                assert(shuffled_pieces@.contains(original_pieces[k]));
                let v = choose|v: int|
                    0 <= v < shuffled_pieces@.len() && #[trigger] shuffled_pieces@[v]
                        == game.available_pieces@[k];
                assert(4 * (available_positions@[u].0 as int) + available_positions@[u].1 == ci);
                assert(false);
            }
        }
        let piece_index: Option<usize> = Some(
            crate::rng::random_below(game.available_pieces.len()),
        );
        let position = available_positions[0];
        Ok(Action { row: position.0, col: position.1, piece_index })
    }
}

} // verus!
