use tictac_net::board::{position_to_index, Player, PlayOutcome, Table};

fn ai() -> Player {
    Player::new(String::from("ai"), 'X')
}

fn human() -> Player {
    Player::new(String::from("bob"), 'O')
}

#[test]
fn keypad_positions_map_to_cells() {
    assert_eq!(position_to_index(7), 0);
    assert_eq!(position_to_index(8), 1);
    assert_eq!(position_to_index(9), 2);
    assert_eq!(position_to_index(4), 3);
    assert_eq!(position_to_index(5), 4);
    assert_eq!(position_to_index(6), 5);
    assert_eq!(position_to_index(1), 6);
    assert_eq!(position_to_index(2), 7);
    assert_eq!(position_to_index(3), 8);
    assert_eq!(position_to_index(0), 5);
    assert_eq!(position_to_index(12), 5);
}

#[test]
fn new_table_is_empty() {
    let mut t = Table::new();
    for i in 0..9 {
        let c = t.get_cell(i);
        assert_eq!(c.owner, "");
        assert_eq!(c.symbol, ' ');
        assert!(!c.is_occupied);
        assert_eq!(c.index, i);
        assert_eq!(c.position, i);
        assert_eq!(c.owner_id, 0);
        assert!(!c.winning_cell);
    }
    assert!(!t.check_full());
}

#[test]
fn init_sets_digits_and_keypad_positions() {
    let mut t = Table::new();
    t.init();
    let positions = [7, 8, 9, 4, 5, 6, 1, 2, 3];
    let symbols = ['0', '1', '2', '3', '4', '5', '6', '7', '8'];
    for i in 0..9 {
        let c = t.get_cell(i as i32);
        assert_eq!(c.position, positions[i]);
        assert_eq!(c.symbol, symbols[i]);
        assert_eq!(t.symbol_or_position(i as i32), char::from(b'0' + positions[i] as u8));
    }
}

#[test]
fn taking_a_cell_marks_it() {
    let mut t = Table::new();
    t.init();
    let a = ai();
    assert_eq!(t.play(&a, 4), PlayOutcome::Placed);
    let c = t.get_cell(4);
    assert!(c.is_occupied);
    assert_eq!(c.owner, "ai");
    assert_eq!(c.symbol, 'X');
    assert_eq!(c.owner_id, 1);
    assert_eq!(t.symbol_or_position(4), 'X');
    let h = human();
    assert_eq!(t.play(&h, 0), PlayOutcome::Placed);
    assert_eq!(t.get_cell(0).owner_id, -1);
}

#[test]
fn occupied_cell_is_refused() {
    let mut t = Table::new();
    let a = ai();
    let h = human();
    assert_eq!(t.play(&a, 2), PlayOutcome::Placed);
    assert_eq!(t.play(&h, 2), PlayOutcome::Occupied);
    assert_eq!(t.get_cell(2).owner, "ai");
}

#[test]
fn completing_a_row_wins_and_flags_it() {
    let mut t = Table::new();
    let a = ai();
    let h = human();
    assert_eq!(t.play(&a, 0), PlayOutcome::Placed);
    assert_eq!(t.play(&h, 3), PlayOutcome::Placed);
    assert_eq!(t.play(&a, 1), PlayOutcome::Placed);
    assert_eq!(t.play(&h, 4), PlayOutcome::Placed);
    assert_eq!(t.play(&a, 2), PlayOutcome::Won);
    assert_eq!(t.winner(), "ai");
    for i in 0..9 {
        assert_eq!(t.get_cell(i).winning_cell, i < 3);
    }
    assert!(t.check_full());
    assert_eq!(t.play(&h, 5), PlayOutcome::Full);
    assert!(!t.get_cell(5).is_occupied);
}

#[test]
fn diagonal_win() {
    let mut t = Table::new();
    let h = human();
    let a = ai();
    assert_eq!(t.play(&h, 2), PlayOutcome::Placed);
    assert_eq!(t.play(&a, 0), PlayOutcome::Placed);
    assert_eq!(t.play(&h, 6), PlayOutcome::Placed);
    assert_eq!(t.play(&a, 1), PlayOutcome::Placed);
    assert_eq!(t.play(&h, 4), PlayOutcome::Won);
    assert_eq!(t.winner(), "bob");
    let flagged: Vec<i32> = (0..9).filter(|&i| t.get_cell(i).winning_cell).collect();
    assert_eq!(flagged, vec![2, 4, 6]);
}

#[test]
fn two_lines_at_once_flag_only_the_first() {
    let mut t = Table::new();
    let a = ai();
    let h = human();
    // ai holds 1, 2, 3, 6 and then takes 0: row 0 and column 0 complete together.
    for (p, i) in [(&a, 1), (&h, 4), (&a, 2), (&h, 5), (&a, 3), (&h, 7), (&a, 6), (&h, 8)] {
        assert_eq!(t.play(p, i), PlayOutcome::Placed);
    }
    assert_eq!(t.play(&a, 0), PlayOutcome::Won);
    let flagged: Vec<i32> = (0..9).filter(|&i| t.get_cell(i).winning_cell).collect();
    assert_eq!(flagged, vec![0, 1, 2]);
}

#[test]
fn nine_moves_fill_the_board() {
    let mut t = Table::new();
    let a = ai();
    let h = human();
    // X O X / X O O / O X X: no line.
    let order = [(0, true), (1, false), (2, true), (4, false), (3, true), (5, false), (7, true), (6, false), (8, true)];
    for (i, first) in order {
        let p = if first { &a } else { &h };
        assert!(!t.check_full());
        assert_eq!(t.play(p, i), PlayOutcome::Placed);
    }
    assert!(t.check_full());
    assert_eq!(t.winner(), "");
}

#[test]
fn csv_row_lists_owner_ids_then_winner() {
    let mut t = Table::new();
    assert_eq!(t.csv_row(), "\n0,0,0,0,0,0,0,0,0,");
    let a = ai();
    let h = human();
    t.play(&a, 0);
    t.play(&h, 4);
    assert_eq!(t.csv_row(), "\n1,0,0,0,-1,0,0,0,0,");
    t.play(&a, 1);
    t.play(&h, 8);
    t.play(&a, 2);
    assert_eq!(t.csv_row(), "\n1,1,1,0,-1,0,0,0,-1,ai");
}

#[test]
fn players_named_ai_move_at_random() {
    assert!(Player::new(String::from("ai"), 'X').is_ai);
    assert!(Player::new(String::from("ai_2"), 'O').is_ai);
    assert!(!Player::new(String::from("alice"), 'A').is_ai);
    assert!(!Player::new(String::from("ai_3"), 'A').is_ai);
}

#[test]
fn player_play_uses_keypad_and_records_move() {
    let mut t = Table::new();
    let mut p = Player::new(String::from("alice"), 'A');
    assert_eq!(p.play(&mut t, 7), PlayOutcome::Placed);
    assert!(t.get_cell(0).is_occupied);
    assert_eq!(p.play(&mut t, 7), PlayOutcome::Occupied);
    assert_eq!(p.previous_moves, vec![7, 7]);
}
