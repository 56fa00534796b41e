use tictac_net::records::{GameData, GamesData};

fn fields(items: &[&str]) -> Option<Vec<String>> {
    Some(items.iter().map(|s| s.to_string()).collect())
}

#[test]
fn new_game_data_is_empty() {
    let g = GameData::new(String::from("ai"), String::from("ai_2"));
    assert_eq!(g.winner, "");
    assert_eq!(g.player1, "ai");
    assert_eq!(g.player2, "ai_2");
    assert!(g.state_of_cells_list.is_empty());
    assert_eq!(g.periodic_state_of_cells, [0; 9]);
}

#[test]
fn round_state_past_the_end_is_the_last() {
    let mut g = GameData::new(String::from("ai"), String::from("ai_2"));
    g.state_of_cells_list.push([1, 0, 0, 0, 0, 0, 0, 0, 0]);
    g.state_of_cells_list.push([1, -1, 0, 0, 0, 0, 0, 0, 0]);
    assert_eq!(g.get_round_State(0), [1, 0, 0, 0, 0, 0, 0, 0, 0]);
    assert_eq!(g.get_round_State(1), [1, -1, 0, 0, 0, 0, 0, 0, 0]);
    assert_eq!(g.get_round_State(7), [1, -1, 0, 0, 0, 0, 0, 0, 0]);
}

#[test]
fn add_and_get_game() {
    let mut d = GamesData::new(String::from("table.csv"));
    let mut g = GameData::new(String::from("ai"), String::from("ai_2"));
    g.winner = String::from("draw");
    g.state_of_cells_list.push([1; 9]);
    d.add_game(g);
    let back = d.get_game(0);
    assert_eq!(back.winner, "draw");
    assert_eq!(back.state_of_cells_list, vec![[1; 9]]);
    assert_eq!(d.csv_file, "table.csv");
}

#[test]
fn records_build_games() {
    let mut d = GamesData::new(String::from("log"));
    let records = vec![
        fields(&["1", "0", "0", "0", "0", "0", "0", "0", "0", ""]),
        None,
        fields(&["1", "0", "0", "0", "-1", "0", "0", "0", "0", ""]),
        fields(&["1", "1", "1", "0", "-1", "0", "0", "0", "-1", "ai"]),
        fields(&["-1", "0", "0", "0", "0", "0", "0", "0", "0", ""]),
        fields(&["-1", "1", "-1", "1", "-1", "1", "1", "-1", "1", "draw"]),
        fields(&["1", "0", "0", "0", "0", "0", "0", "0", "0", ""]),
    ];
    d.load_records(&records);
    assert_eq!(d.game_data.len(), 2);
    let g = &d.game_data[0];
    assert_eq!(g.winner, "ai");
    assert_eq!(g.player1, "ai");
    assert_eq!(g.player2, "ai_2");
    assert_eq!(
        g.state_of_cells_list,
        vec![
            [1, 0, 0, 0, 0, 0, 0, 0, 0],
            [1, 0, 0, 0, -1, 0, 0, 0, 0],
            [1, 1, 1, 0, -1, 0, 0, 0, -1],
        ]
    );
    let g = &d.game_data[1];
    assert_eq!(g.winner, "draw");
    assert_eq!(g.state_of_cells_list.len(), 2);
    assert_eq!(g.state_of_cells_list[1], [-1, 1, -1, 1, -1, 1, 1, -1, 1]);
}

#[test]
fn short_boards_and_unknown_fields() {
    let mut d = GamesData::new(String::from("log"));
    let records = vec![
        fields(&["1", "0", "0", "0", "0", "0", "0", ""]),
        fields(&["x", "1", "1", "1", "1", "1", "1", "1", "1", "1", "1", "1", "ai_2"]),
    ];
    d.load_records(&records);
    assert_eq!(d.game_data.len(), 1);
    let g = &d.game_data[0];
    assert_eq!(g.winner, "ai_2");
    assert_eq!(g.state_of_cells_list, vec![[1; 9]]);
}

#[test]
fn read_data_parses_the_log_text() {
    let text = "\n1,0,0,0,0,0,0,0,0,\n1,0,0,0,-1,0,0,0,0,\n1,1,1,0,-1,0,0,0,-1,ai\n0,-1,0,0,0,0,0,0,0,";
    let mut d = GamesData::new(String::from("table.csv"));
    d.read_data(text.as_bytes());
    assert_eq!(d.game_data.len(), 1);
    let g = d.get_game(0);
    assert_eq!(g.winner, "ai");
    assert_eq!(g.state_of_cells_list.len(), 3);
    assert_eq!(g.get_round_State(1), [1, 0, 0, 0, -1, 0, 0, 0, 0]);
}

#[test]
fn read_data_of_empty_log() {
    let mut d = GamesData::new(String::from("table.csv"));
    d.read_data(b"");
    assert!(d.game_data.is_empty());
}
