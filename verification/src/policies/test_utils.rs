use vstd::prelude::*;

use crate::game::board::lemma_place_cells;
use crate::game::Game;
use crate::game::GameError;
use crate::game::Piece;
use crate::policies::policy::Policy;

verus! {

/// On a fresh game any policy must return an action with in-range
/// coordinates and, when a handoff is present, an in-range pool index.
pub fn test_policy_action<P: Policy>(policy: P) {
    let game = Game::new();
    let result = policy.action(&game);
    match result {
        Ok(action) => {
            assert(action.row < 4);
            assert(action.col < 4);
            match action.piece_index {
                Some(piece_index) => {
                    assert(piece_index < game.available_pieces@.len());
                },
                None => {},
            }
        },
        Err(_) => {
            proof {
                assert(false);
            }
        },
    }
}

/// Any policy drives a fresh game to a terminal state, one legal turn at a
/// time, and the finished game yields a winner or a draw.
pub fn test_policy_game_progression<P: Policy>(policy: P) {
    let mut game = Game::new();
    let mut done = game.is_game_over();
    while !done
        invariant
            done == game.spec_game_over(),
        decreases game.board.avail_seq().len(),
    {
        let act = policy.action(&game);
        match act {
            Ok(a) => {
                let res = game.play_turn(a.row, a.col, a.piece_index);
                match res {
                    Ok(_) => {},
                    Err(_) => {
                        proof {
                            assert(false);
                        }
                    },
                }
            },
            Err(_) => {
                proof {
                    assert(false);
                }
            },
        }
        done = game.is_game_over();
    }
    assert(game.spec_game_over());
    let _winner = game.judge_winner();
}

/// A policy asked to act on a full board reports `NoLegalMove` instead of
/// panicking.
pub fn test_policy_no_available_positions<P: Policy>(policy: P) {
    let mut game = Game::new();
    let piece = Piece::new(0, 0, 0, 0);
    let mut row: usize = 0;
    while row < 4
        invariant
            row <= 4,
            forall|i: int| 0 <= i < 4 * row ==> game.board.cell_occupied(i),
            forall|i: int| 4 * row <= i < 16 ==> !game.board.cell_occupied(i),
        decreases 4 - row,
    {
        let mut col: usize = 0;
        while col < 4
            invariant
                row < 4,
                col <= 4,
                forall|i: int| 0 <= i < 4 * row + col ==> game.board.cell_occupied(i),
                forall|i: int| 4 * row + col <= i < 16 ==> !game.board.cell_occupied(i),
            decreases 4 - col,
        {
            let ghost pre_board = game.board;
            let res = game.board.place_piece(row, col, piece);
            match res {
                Ok(_) => {
                    proof {
                        lemma_place_cells(pre_board, 4 * row + col, piece);
                    }
                },
                Err(_) => {
                    proof {
                        assert(false);
                    }
                },
            }
            col = col + 1;
        }
        row = row + 1;
    }
    let result = policy.action(&game);
    match result {
        Ok(_) => {
            proof {
                assert(false);
            }
        },
        Err(e) => {
            assert(e == GameError::NoLegalMove);
        },
    }
}

/// With an empty pool every policy answers with no handoff.
pub fn test_policy_no_available_pieces<P: Policy>(policy: P) {
    let mut game = Game::new();
    game.available_pieces.clear();
    let result = policy.action(&game);
    match result {
        Ok(action) => {
            assert(action.piece_index is None);
        },
        Err(_) => {
            proof {
                assert(false);
            }
        },
    }
}

} // verus!
