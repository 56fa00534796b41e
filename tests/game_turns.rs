use tictac_net::board::{Player, PlayOutcome};
use tictac_net::game::{matchup_of, Game, Matchup, NextMove};

fn ai_game() -> Game {
    let (p1, p2) = Game::init_player(String::from("ai_Vs_ai"), String::new(), ' ', String::new(), ' ');
    Game::new(p1, p2)
}

#[test]
fn matchups_by_name() {
    assert_eq!(matchup_of(&String::from("ai_Vs_ai")), Matchup::AiVsAi);
    assert_eq!(matchup_of(&String::from("human_Vs_human")), Matchup::HumanVsHuman);
    assert_eq!(matchup_of(&String::from("ai_Vs_human")), Matchup::AiVsHuman);
    assert_eq!(matchup_of(&String::from("")), Matchup::AiVsHuman);
}

#[test]
fn init_player_for_each_matchup() {
    let (a, b) = Game::init_player(String::from("ai_Vs_ai"), String::from("x"), 'x', String::from("y"), 'y');
    assert_eq!((a.name.as_str(), a.symbol, a.is_ai), ("ai", 'X', true));
    assert_eq!((b.name.as_str(), b.symbol, b.is_ai), ("ai_2", 'O', true));
    let (a, b) = Game::init_player(String::from("human_Vs_human"), String::from("ann"), 'A', String::from("ben"), 'B');
    assert_eq!((a.name.as_str(), a.symbol, a.is_ai), ("ann", 'A', false));
    assert_eq!((b.name.as_str(), b.symbol, b.is_ai), ("ben", 'B', false));
    let (a, b) = Game::init_player(String::from("mixed"), String::from("ann"), 'A', String::from("ben"), 'B');
    assert_eq!((a.name.as_str(), a.symbol, a.is_ai), ("ai", 'A', true));
    assert_eq!((b.name.as_str(), b.symbol, b.is_ai), ("ben", 'B', false));
}

#[test]
fn new_game_sets_up_the_board() {
    let mut g = ai_game();
    assert!(g.player1_turn);
    assert!(g.player1_moves.is_empty() && g.player2_moves.is_empty());
    assert_eq!(g.tictac_board.get_cell(0).position, 7);
    assert_eq!(g.tictac_board.get_cell(0).symbol, '0');
    assert!(!g.tictac_board.check_full());
}

#[test]
fn turns_alternate_and_are_recorded() {
    let mut g = ai_game();
    assert_eq!(g.play(7), (PlayOutcome::Placed, false));
    assert!(!g.player1_turn);
    assert_eq!(g.play(5), (PlayOutcome::Placed, false));
    assert!(g.player1_turn);
    assert_eq!(g.player1_moves, vec![7]);
    assert_eq!(g.player2_moves, vec![5]);
    assert_eq!(g.player1.previous_moves, vec![7]);
    assert_eq!(g.tictac_board.get_cell(0).owner, "ai");
    assert_eq!(g.tictac_board.get_cell(4).owner, "ai_2");
    assert_eq!(g.tictac_board.get_cell(4).owner_id, -1);
}

#[test]
fn winning_turn_ends_the_game() {
    let mut g = ai_game();
    for p in [7, 4, 8, 5] {
        assert_eq!(g.play(p), (PlayOutcome::Placed, false));
    }
    assert_eq!(g.play(9), (PlayOutcome::Won, true));
    assert!(g.player1_turn);
    assert_eq!(g.tictac_board.winner(), "ai");
}

#[test]
fn occupied_turn_passes_the_turn() {
    let mut g = ai_game();
    g.play(7);
    assert_eq!(g.play(7), (PlayOutcome::Occupied, false));
    assert!(g.player1_turn);
    assert_eq!(g.player2_moves, vec![7]);
}

#[test]
fn free_moves_skip_played_positions() {
    let mut g = ai_game();
    g.play(1);
    g.play(9);
    g.play(5);
    assert_eq!(g.free_moves(), vec![2, 3, 4, 6, 7, 8]);
}

#[test]
fn random_move_is_a_free_position() {
    let mut g = ai_game();
    for p in [1, 2, 3, 5, 4, 6, 8, 7] {
        g.play(p);
    }
    for _ in 0..20 {
        assert_eq!(g.ai_play_move(), Some(9));
    }
    g.play(9);
    assert_eq!(g.ai_play_move(), None);
    assert_eq!(g.get_input(), NextMove::NoneLeft);
}

#[test]
fn random_moves_stay_in_range() {
    let mut g = ai_game();
    g.play(5);
    for _ in 0..50 {
        match g.get_input() {
            NextMove::Drawn(p) => assert!((1..=9).contains(&p) && p != 5),
            other => panic!("unexpected {:?}", other),
        }
    }
}

#[test]
fn humans_enter_their_moves() {
    let mut g = Game::new(
        Player::new(String::from("ann"), 'A'),
        Player::new(String::from("ben"), 'B'),
    );
    assert_eq!(g.get_input(), NextMove::FromHuman);
}

#[test]
fn random_games_run_to_the_end() {
    for _ in 0..50 {
        let mut g = ai_game();
        let mut turns = 0;
        loop {
            let p = match g.get_input() {
                NextMove::Drawn(p) => p,
                other => panic!("unexpected {:?}", other),
            };
            let (outcome, over) = g.play(p);
            assert!(outcome == PlayOutcome::Placed || outcome == PlayOutcome::Won);
            turns += 1;
            if over {
                break;
            }
        }
        assert!((5..=9).contains(&turns));
    }
}
