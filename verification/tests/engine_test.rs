use quart_engine::game::board::Board;
use quart_engine::game::piece::Piece;
use quart_engine::game::Game;
use quart_engine::game::GameError;
use quart_engine::game::Player;
use quart_engine::policies::GreedyRandomPolicy;
use quart_engine::policies::OneStepLookAheadPolicy;
use quart_engine::policies::Policy;
use quart_engine::policies::RandomPolicy;
use quart_engine::utils::TimeKeeper;

#[test]
fn test_piece_round_trip_all_sixteen() {
    for color in 0..2u8 {
        for shape in 0..2u8 {
            for height in 0..2u8 {
                for surface in 0..2u8 {
                    let p = Piece::new(color, shape, height, surface);
                    assert_eq!(p.color(), color);
                    assert_eq!(p.shape(), shape);
                    assert_eq!(p.height(), height);
                    assert_eq!(p.surface(), surface);
                }
            }
        }
    }
}

#[test]
fn test_create_pieces_covers_all_combinations() {
    let pieces = Game::create_pieces();
    assert_eq!(pieces.len(), 16);
    for i in 0..16 {
        for j in 0..i {
            assert_ne!(pieces[i], pieces[j], "all sixteen pieces are distinct");
        }
    }
}

#[test]
fn test_color_row_completion() {
    // Three pieces sharing color 0 in the top row, other attributes mixed: a
    // color-0 piece completes the row at (0, 3).
    let mut board = Board::new();
    board.place_piece(0, 0, Piece::new(0, 1, 0, 0)).unwrap();
    board.place_piece(0, 1, Piece::new(0, 0, 1, 1)).unwrap();
    board.place_piece(0, 2, Piece::new(0, 1, 1, 0)).unwrap();
    let selected = Piece::new(0, 0, 0, 1);
    assert_eq!(board.find_winning_cell(selected), Some((0, 3)));
}

#[test]
fn test_find_winning_cell_shared_one_attribute() {
    // The winning attribute value is 1 on all four pieces: the lookahead must
    // see completions on the "all ones" side as well as the "all zeros" side.
    let mut board = Board::new();
    board.place_piece(0, 0, Piece::new(1, 0, 1, 0)).unwrap();
    board.place_piece(0, 1, Piece::new(1, 1, 0, 0)).unwrap();
    board.place_piece(0, 2, Piece::new(1, 0, 0, 1)).unwrap();
    let selected = Piece::new(1, 1, 1, 0);
    assert_eq!(board.find_winning_cell(selected), Some((0, 3)));
    board.place_piece(0, 3, selected).unwrap();
    assert!(board.check_win());
}

#[test]
fn test_last_cell_draw_scenario() {
    // A full board with no winning line: fifteen pieces placed, the sixteenth
    // does not complete any of the lines through the one empty cell, so the
    // game ends as a draw.
    let layout: [(u8, u8, u8, u8); 15] = [
        (0, 0, 0, 1),
        (1, 1, 0, 0),
        (0, 0, 1, 1),
        (1, 0, 0, 1),
        (1, 1, 1, 1),
        (1, 1, 0, 1),
        (0, 1, 0, 0),
        (0, 0, 1, 0),
        (0, 1, 1, 0),
        (1, 0, 1, 0),
        (0, 1, 1, 1),
        (0, 1, 0, 1),
        (1, 0, 1, 1),
        (0, 0, 0, 0),
        (1, 0, 0, 0),
    ];
    let mut board = Board::new();
    for (cell, attrs) in layout.iter().enumerate() {
        let piece = Piece::new(attrs.0, attrs.1, attrs.2, attrs.3);
        board.place_piece(cell / 4, cell % 4, piece).unwrap();
    }
    assert!(!board.check_win());
    let last = Piece::new(1, 1, 1, 0);
    assert_eq!(board.find_winning_cell(last), None);

    let mut game = Game {
        board,
        available_pieces: Vec::new(),
        selected_piece: last,
        current_player: Player::Player1,
    };
    assert!(game.play_turn(3, 3, None).is_ok());
    assert!(game.board.is_full());
    assert!(!game.board.check_win());
    assert!(game.is_game_over());
    assert_eq!(game.judge_winner(), None);
}

#[test]
fn test_error_variants() {
    let mut board = Board::new();
    let p = Piece::new(0, 0, 0, 0);
    assert_eq!(board.place_piece(4, 0, p), Err(GameError::InvalidCoordinate));
    assert_eq!(board.place_piece(0, 4, p), Err(GameError::InvalidCoordinate));
    board.place_piece(0, 0, p).unwrap();
    assert_eq!(board.place_piece(0, 0, p), Err(GameError::OccupiedCell));

    let mut game = Game::new();
    assert_eq!(game.play_turn(0, 0, Some(99)), Err(GameError::InvalidPieceIndex));
    assert_eq!(game.play_turn(0, 0, None), Err(GameError::PreconditionViolated));
    assert!(game.play_turn(0, 0, Some(0)).is_ok());

    let policy = RandomPolicy::new();
    let mut full = Game::new();
    for row in 0..4 {
        for col in 0..4 {
            let _ = full.board.place_piece(row, col, p);
        }
    }
    assert_eq!(policy.action(&full), Err(GameError::NoLegalMove));
}

#[test]
fn test_occupied_cell_leaves_board_unchanged() {
    let mut board = Board::new();
    board.place_piece(1, 1, Piece::new(0, 1, 1, 0)).unwrap();
    let before = board.grid();
    let positions_before = board.available_positions();
    assert_eq!(board.place_piece(1, 1, Piece::new(1, 0, 0, 1)), Err(GameError::OccupiedCell));
    assert_eq!(board.grid(), before);
    assert_eq!(board.available_positions(), positions_before);
}

#[test]
fn test_available_positions_row_major_order() {
    let mut board = Board::new();
    board.place_piece(1, 2, Piece::new(0, 0, 0, 0)).unwrap();
    let mut expected: Vec<(usize, usize)> = Vec::new();
    for row in 0..4 {
        for col in 0..4 {
            if !(row == 1 && col == 2) {
                expected.push((row, col));
            }
        }
    }
    assert_eq!(board.available_positions(), expected);
}

#[test]
fn test_available_positions_count_tracks_placements() {
    let mut game = Game::new();
    let mut placements = 0;
    while !game.is_game_over() {
        assert_eq!(
            game.board.available_positions().len(),
            16 - placements,
            "available positions are sixteen minus the placements made"
        );
        let action = RandomPolicy::new().action(&game).unwrap();
        game.play_turn(action.row, action.col, action.piece_index).unwrap();
        placements += 1;
    }
    assert!(placements <= 16);
}

#[test]
fn test_judge_winner_is_player_before_the_switch() {
    let mut board = Board::new();
    board.place_piece(0, 0, Piece::new(0, 1, 0, 0)).unwrap();
    board.place_piece(0, 1, Piece::new(0, 0, 1, 1)).unwrap();
    board.place_piece(0, 2, Piece::new(0, 1, 1, 0)).unwrap();
    let mut game = Game {
        board,
        available_pieces: vec![Piece::new(1, 1, 1, 1)],
        selected_piece: Piece::new(0, 0, 0, 1),
        current_player: Player::Player1,
    };
    game.play_turn(0, 3, Some(0)).unwrap();
    assert!(game.is_game_over());
    assert_eq!(game.current_player, Player::Player2);
    assert_eq!(game.judge_winner(), Some(Player::Player1));
}

#[test]
fn test_new_game_state() {
    for _ in 0..100 {
        let game = Game::new();
        assert_eq!(game.available_pieces.len(), 15);
        assert_eq!(game.current_player, Player::Player1);
        assert!(game.selected_piece.color() < 2);
        assert!(
            !game.available_pieces.contains(&game.selected_piece),
            "the selected piece has left the pool"
        );
        assert_eq!(game.board.available_positions().len(), 16);
    }
}

#[test]
fn test_random_policy_actions_stay_legal() {
    for _ in 0..200 {
        let game = Game::new();
        let action = RandomPolicy::new().action(&game).unwrap();
        assert!(action.row < 4);
        assert!(action.col < 4);
        assert!(action.piece_index.unwrap() < game.available_pieces.len());
        assert!(game.board.grid()[action.row][action.col].is_none());
    }
}

#[test]
fn test_time_keeper_zero_budget_is_over() {
    let keeper = TimeKeeper::new(0);
    assert!(keeper.is_time_over());
}

#[test]
fn test_grid_shape_and_contents() {
    let mut board = Board::new();
    let piece = Piece::new(1, 0, 1, 1);
    board.place_piece(2, 3, piece).unwrap();
    let grid = board.grid();
    assert_eq!(grid.len(), 4);
    for row in 0..4 {
        assert_eq!(grid[row].len(), 4);
        for col in 0..4 {
            if row == 2 && col == 3 {
                assert_eq!(grid[row][col], Some(piece));
            } else {
                assert_eq!(grid[row][col], None);
            }
        }
    }
}

#[test]
fn test_available_actions_enumeration() {
    // Fill all but two cells, shrink the pool to two pieces: the actions are
    // the cross product, positions in row-major order, pool indices ascending.
    let mut board = Board::new();
    let filler = Piece::new(0, 0, 0, 0);
    for cell in 0..16 {
        if cell != 5 && cell != 9 {
            board.place_piece(cell / 4, cell % 4, filler).unwrap();
        }
    }
    let game = Game {
        board,
        available_pieces: vec![Piece::new(1, 0, 1, 0), Piece::new(0, 1, 0, 1)],
        selected_piece: Piece::new(1, 1, 1, 1),
        current_player: Player::Player1,
    };
    let actions = game.available_actions();
    let listed: Vec<(usize, usize, Option<usize>)> =
        actions.iter().map(|a| (a.row, a.col, a.piece_index)).collect();
    assert_eq!(
        listed,
        vec![
            (1, 1, Some(0)),
            (1, 1, Some(1)),
            (2, 1, Some(0)),
            (2, 1, Some(1)),
        ]
    );

    let empty_pool_game = Game {
        board: game.board,
        available_pieces: Vec::new(),
        selected_piece: game.selected_piece,
        current_player: Player::Player1,
    };
    let actions = empty_pool_game.available_actions();
    let listed: Vec<(usize, usize, Option<usize>)> =
        actions.iter().map(|a| (a.row, a.col, a.piece_index)).collect();
    assert_eq!(listed, vec![(1, 1, None), (2, 1, None)]);
}

#[test]
fn test_one_step_policy_picks_safe_pair_when_one_exists() {
    for _ in 0..20 {
        // Advance a fresh game by a few random turns to vary the position.
        let mut game = Game::new();
        for _ in 0..4 {
            if game.is_game_over() {
                break;
            }
            let a = RandomPolicy::new().action(&game).unwrap();
            game.play_turn(a.row, a.col, a.piece_index).unwrap();
        }
        if game.is_game_over() {
            continue;
        }

        let selected_wins = game.board.find_winning_cell(game.selected_piece).is_some();
        let policy = OneStepLookAheadPolicy::new();
        let action = policy.action(&game).unwrap();
        let handed = action.piece_index.map(|i| game.available_pieces[i]);

        let mut next = game.clone();
        next.play_turn(action.row, action.col, action.piece_index).unwrap();

        if selected_wins {
            assert!(next.board.check_win(), "a winning placement is taken at once");
        } else if let Some(handed_piece) = handed {
            // Brute-force: does any (cell, handoff) pair deny the opponent a win?
            let mut safe_exists = false;
            for pos in game.board.available_positions() {
                for idx in 0..game.available_pieces.len() {
                    let mut sim = game.clone();
                    sim.play_turn(pos.0, pos.1, Some(idx)).unwrap();
                    if sim.board.find_winning_cell(game.available_pieces[idx]).is_none() {
                        safe_exists = true;
                    }
                }
            }
            if safe_exists {
                assert!(
                    next.board.find_winning_cell(handed_piece).is_none(),
                    "with a safe pair on offer, the chosen pair must not let the opponent win"
                );
            }
        }
    }
}

#[test]
fn test_greedy_policy_picks_safe_pair_when_one_exists() {
    for _ in 0..20 {
        let mut game = Game::new();
        for _ in 0..4 {
            if game.is_game_over() {
                break;
            }
            let a = RandomPolicy::new().action(&game).unwrap();
            game.play_turn(a.row, a.col, a.piece_index).unwrap();
        }
        if game.is_game_over() {
            continue;
        }

        let selected_wins = game.board.find_winning_cell(game.selected_piece).is_some();
        let policy = GreedyRandomPolicy::new();
        let action = policy.action(&game).unwrap();
        let handed = action.piece_index.map(|i| game.available_pieces[i]);

        let mut next = game.clone();
        next.play_turn(action.row, action.col, action.piece_index).unwrap();

        if selected_wins {
            assert!(next.board.check_win(), "a winning placement is taken at once");
        } else if let Some(handed_piece) = handed {
            let mut safe_exists = false;
            for pos in game.board.available_positions() {
                for idx in 0..game.available_pieces.len() {
                    let mut sim = game.clone();
                    sim.play_turn(pos.0, pos.1, Some(idx)).unwrap();
                    if sim.board.find_winning_cell(game.available_pieces[idx]).is_none() {
                        safe_exists = true;
                    }
                }
            }
            if safe_exists {
                assert!(
                    next.board.find_winning_cell(handed_piece).is_none(),
                    "with a safe pair on offer, the chosen pair must not let the opponent win"
                );
            }
        }
    }
}
