use quart_engine::game::Game;
use quart_engine::game::Piece;
use quart_engine::policies::test_utils::test_policy_action;
use quart_engine::policies::test_utils::test_policy_game_progression;
use quart_engine::policies::test_utils::test_policy_no_available_pieces;
use quart_engine::policies::test_utils::test_policy_no_available_positions;
use quart_engine::policies::GreedyRandomPolicy;
use quart_engine::policies::MCSPolicy;
use quart_engine::policies::MCTSPolicy;
use quart_engine::policies::OneStepLookAheadPolicy;
use quart_engine::policies::Policy;
use quart_engine::policies::RandomPolicy;

#[test]
fn test_one_step_look_ahead_policy_wins_when_possible() {
    // 勝てる盤面を作成
    let mut game = Game::new();
    let piece1 = Piece::new(0, 1, 0, 0);
    let piece2 = Piece::new(0, 1, 0, 1);
    let piece3 = Piece::new(0, 1, 1, 0);
    let piece4 = Piece::new(1, 1, 1, 1);
    game.board.place_piece(0, 0, piece1).unwrap();
    game.board.place_piece(0, 1, piece2).unwrap();
    game.board.place_piece(0, 2, piece3).unwrap();
    game.selected_piece = piece4;

    // 勝利する手を選ぶかチェック
    let policy = OneStepLookAheadPolicy::new();
    let action = policy.action(&game).unwrap();
    // actionはrow=0, col=3の手を選ぶはず
    assert_eq!(action.row, 0, "行が正しい");
    assert_eq!(action.col, 3, "列が正しい");
}

#[test]
fn test_one_step_look_ahead_policy_action() {
    test_policy_action(OneStepLookAheadPolicy::new());
}

#[test]
fn test_one_step_look_ahead_policy_game_progression() {
    test_policy_game_progression(OneStepLookAheadPolicy::new());
}

#[test]
fn test_one_step_look_ahead_policy_no_available_positions() {
    test_policy_no_available_positions(OneStepLookAheadPolicy::new());
}

#[test]
fn test_one_step_look_ahead_policy_no_available_pieces() {
    test_policy_no_available_pieces(OneStepLookAheadPolicy::new());
}

#[test]
fn test_greedy_random_policy_action() {
    test_policy_action(GreedyRandomPolicy::new());
}

#[test]
fn test_greedy_random_policy_game_progression() {
    test_policy_game_progression(GreedyRandomPolicy::new());
}

#[test]
fn test_greedy_random_policy_no_available_positions() {
    test_policy_no_available_positions(GreedyRandomPolicy::new());
}

#[test]
fn test_greedy_random_policy_no_available_pieces() {
    test_policy_no_available_pieces(GreedyRandomPolicy::new());
}

#[test]
fn test_mcs_policy_action() {
    test_policy_action(MCSPolicy::new());
}

#[test]
fn test_mcs_policy_game_progression() {
    test_policy_game_progression(MCSPolicy::new());
}

#[test]
fn test_mcs_policy_no_available_positions() {
    test_policy_no_available_positions(MCSPolicy::new());
}

#[test]
fn test_mcs_policy_no_available_pieces() {
    test_policy_no_available_pieces(MCSPolicy::new());
}

#[test]
fn mcts_policy_test_random_policy_action() {
    test_policy_action(MCTSPolicy::new());
}

#[test]
fn mcts_policy_test_random_policy_game_progression() {
    test_policy_game_progression(MCTSPolicy::new());
}

#[test]
fn mcts_policy_test_random_policy_no_available_positions() {
    test_policy_no_available_positions(MCTSPolicy::new());
}

#[test]
fn mcts_policy_test_random_policy_no_available_pieces() {
    test_policy_no_available_pieces(MCTSPolicy::new());
}

#[test]
fn random_policy_test_random_policy_action() {
    test_policy_action(RandomPolicy::new());
}

#[test]
fn random_policy_test_random_policy_game_progression() {
    test_policy_game_progression(RandomPolicy::new());
}

#[test]
fn random_policy_test_random_policy_no_available_positions() {
    test_policy_no_available_positions(RandomPolicy::new());
}

#[test]
fn random_policy_test_random_policy_no_available_pieces() {
    test_policy_no_available_pieces(RandomPolicy::new());
}
