//! Recorded games: the boards of each game, read back from the log that the
//! board writes one record per move to.

use vstd::prelude::*;

verus! {

/// The fields of each record of a headerless CSV text, `None` for a record
/// that the reader rejected.
pub uninterp spec fn csv_records(data: Seq<u8>) -> Seq<Option<Seq<Seq<char>>>>;

/// The fields of one record as character sequences.
pub open spec fn fields_view(fields: Vec<String>) -> Seq<Seq<char>> {
    fields@.map_values(|f: String| f@)
}

/// A record as character sequences.
pub open spec fn record_view(record: Option<Vec<String>>) -> Option<Seq<Seq<char>>> {
    match record {
        Some(fields) => Some(fields_view(fields)),
        None => None,
    }
}

/// Relies on `csv::ReaderBuilder` (headers off) and `Reader::records`: the
/// records of `data` in order, each with its fields, or the reader's error,
/// which is kept only as `None`.
#[verifier::external_body]
fn read_records(data: &[u8]) -> (r: Vec<Option<Vec<String>>>)
    ensures
        r@.map_values(|rec: Option<Vec<String>>| record_view(rec)) == csv_records(data@),
{
    csv::ReaderBuilder::new()
        .has_headers(false)
        .from_reader(data)
        .records()
        .map(|rec| rec.ok().map(|rec| rec.iter().map(String::from).collect()))
        .collect()
}

/// One game as recorded: who played, who won, and the board after each move
/// (a cell holds 1 for `ai`, -1 for the other player, 0 when free).
#[derive(Clone)]
pub struct GameData {
    pub winner: String,
    pub player1: String,
    pub player2: String,
    pub state_of_cells_list: Vec<[i8; 9]>,
    pub periodic_state_of_cells: [i8; 9],
}

/// A recorded game as values.
pub struct GameDataView {
    pub winner: Seq<char>,
    pub player1: Seq<char>,
    pub player2: Seq<char>,
    pub states: Seq<Seq<i8>>,
    pub periodic: Seq<i8>,
}

impl View for GameData {
    type V = GameDataView;

    open spec fn view(&self) -> GameDataView {
        GameDataView {
            winner: self.winner@,
            player1: self.player1@,
            player2: self.player2@,
            states: self.state_of_cells_list@.map_values(|s: [i8; 9]| s@),
            periodic: self.periodic_state_of_cells@,
        }
    }
}

/// A game with no moves yet between the two named players.
pub open spec fn fresh_game(player1: Seq<char>, player2: Seq<char>) -> GameDataView {
    GameDataView {
        winner: Seq::empty(),
        player1,
        player2,
        states: Seq::empty(),
        periodic: Seq::new(9, |i: int| 0i8),
    }
}

impl GameData {
    pub fn new(player1: String, player2: String) -> (r: GameData)
        ensures
            r@ == fresh_game(player1@, player2@),
    {
        let r = GameData {
            winner: String::new(),
            player1,
            player2,
            state_of_cells_list: Vec::new(),
            periodic_state_of_cells: [0;9],
        };
        proof {
            assert(r@.states =~= Seq::<Seq<i8>>::empty());
            assert(r@.periodic =~= Seq::new(9, |i: int| 0i8));
        }
        r
    }

    /// The board after move `index`, or after the last move when there were
    /// fewer.
    #[allow(non_snake_case)]
    pub fn get_round_State(&self, index: usize) -> (r: [i8; 9])
        requires
            self.state_of_cells_list@.len() > 0,
        ensures
            index < self.state_of_cells_list@.len() ==> r == self.state_of_cells_list@[index as int],
            index >= self.state_of_cells_list@.len() ==> r == self.state_of_cells_list@.last(),
    {
        if index >= self.state_of_cells_list.len() {
            return self.state_of_cells_list[self.state_of_cells_list.len() - 1];
        }
        self.state_of_cells_list[index]
    }

    /// A copy of this game.
    fn duplicate(&self) -> (r: GameData)
        ensures
            r@ == self@,
    {
        let mut states: Vec<[i8; 9]> = Vec::new();
        let mut i: usize = 0;
        while i < self.state_of_cells_list.len()
            invariant
                i <= self.state_of_cells_list@.len(),
                states@ == self.state_of_cells_list@.subrange(0, i as int),
            decreases self.state_of_cells_list@.len() - i,
        {
            states.push(self.state_of_cells_list[i]);
            proof {
                assert(states@ =~= self.state_of_cells_list@.subrange(0, i + 1));
            }
            i = i + 1;
        }
        proof {
            assert(states@ =~= self.state_of_cells_list@);
        }
        GameData {
            winner: self.winner.clone(),
            player1: self.player1.clone(),
            player2: self.player2.clone(),
            state_of_cells_list: states,
            periodic_state_of_cells: self.periodic_state_of_cells,
        }
    }
}

/// The recorded games as values.
pub open spec fn games_view(games: Seq<GameData>) -> Seq<GameDataView> {
    games.map_values(|g: GameData| g@)
}

/// The cell value that a field spells, if any.
pub open spec fn cell_value(item: Seq<char>) -> Option<i8> {
    if item == "-1"@ {
        Some(-1i8)
    } else if item == "0"@ {
        Some(0i8)
    } else if item == "1"@ {
        Some(1i8)
    } else {
        None
    }
}

/// A field that names how a game ended: its winner or a draw.
pub open spec fn is_end_marker(item: Seq<char>) -> bool {
    item == "ai"@ || item == "ai_2"@ || item == "draw"@
}

/// Where reading a log stands: the games finished so far, the game being
/// read, and the next cell of its board.
pub struct LoadState {
    pub games: Seq<GameDataView>,
    pub current: GameDataView,
    pub index: int,
}

/// The state before any record.
pub open spec fn load_start() -> LoadState {
    LoadState { games: Seq::empty(), current: fresh_game("ai"@, "ai_2"@), index: 0 }
}

/// Reading one field. A cell value fills the next cell of the board (a
/// value beyond the ninth cell is dropped); an empty field ends the board,
/// which is kept when at least eight cells were read; an end marker ends
/// the board and the game, which gets the marker as its winner; anything
/// else is skipped.
pub open spec fn step_item(st: LoadState, item: Seq<char>) -> LoadState {
    if let Some(v) = cell_value(item) {
        LoadState {
            current: GameDataView {
                periodic: if 0 <= st.index < 9 {
                    st.current.periodic.update(st.index, v)
                } else {
                    st.current.periodic
                },
                ..st.current
            },
            index: st.index + 1,
            ..st
        }
    } else if item.len() == 0 {
        LoadState {
            current: if st.index >= 8 {
                GameDataView { states: st.current.states.push(st.current.periodic), ..st.current }
            } else {
                st.current
            },
            index: 0,
            ..st
        }
    } else if is_end_marker(item) {
        LoadState {
            games: st.games.push(
                GameDataView {
                    winner: st.current.winner + item,
                    states: st.current.states.push(st.current.periodic),
                    ..st.current
                },
            ),
            current: fresh_game("ai"@, "ai_2"@),
            index: 0,
        }
    } else {
        st
    }
}

/// Reading the fields of one record in order.
pub open spec fn step_fields(st: LoadState, fields: Seq<Seq<char>>) -> LoadState
    decreases fields.len(),
{
    if fields.len() == 0 {
        st
    } else {
        step_item(step_fields(st, fields.drop_last()), fields.last())
    }
}

/// Reading records in order: each record starts at the first cell, and a
/// rejected record is skipped.
pub open spec fn step_records(st: LoadState, records: Seq<Option<Seq<Seq<char>>>>) -> LoadState
    decreases records.len(),
{
    if records.len() == 0 {
        st
    } else {
        let prev = step_records(st, records.drop_last());
        match records.last() {
            Some(fields) => step_fields(LoadState { index: 0, ..prev }, fields),
            None => prev,
        }
    }
}

/// The games that a log's records hold; a game without an end marker is
/// left out.
pub open spec fn loaded_games(records: Seq<Option<Seq<Seq<char>>>>) -> Seq<GameDataView> {
    step_records(load_start(), records).games
}

/// The cell value that a field spells, if any.
fn cell_value_of(item: &String) -> (r: Option<i8>)
    ensures
        r == cell_value(item@),
{
    if *item == String::from_str("-1") {
        Some(-1)
    } else if *item == String::from_str("0") {
        Some(0)
    } else if *item == String::from_str("1") {
        Some(1)
    } else {
        None
    }
}

/// The recorded games and the log they come from.
pub struct GamesData {
    pub game_data: Vec<GameData>,
    pub csv_file: String,
}

impl GamesData {
    pub fn new(csv_file: String) -> (r: GamesData)
        ensures
            r.csv_file == csv_file,
            r.game_data@.len() == 0,
    {
        GamesData { csv_file, game_data: Vec::new() }
    }

    pub fn add_game(&mut self, game_data: GameData)
        ensures
            final(self).game_data@ == old(self).game_data@.push(game_data),
            final(self).csv_file == old(self).csv_file,
    {
        self.game_data.push(game_data);
    }

    /// A copy of game `index`.
    pub fn get_game(&self, index: usize) -> (r: GameData)
        requires
            index < self.game_data@.len(),
        ensures
            r@ == self.game_data@[index as int]@,
    {
        self.game_data[index].duplicate()
    }

    /// Adds the games that the records of a log hold.
    pub fn load_records(&mut self, records: &Vec<Option<Vec<String>>>)
        ensures
            games_view(final(self).game_data@) == games_view(old(self).game_data@) + loaded_games(
                records@.map_values(|rec: Option<Vec<String>>| record_view(rec)),
            ),
            final(self).csv_file == old(self).csv_file,
    {
        let ghost recs = records@.map_values(|rec: Option<Vec<String>>| record_view(rec));
        let ghost old_games = games_view(self.game_data@);
        let mut temp = GameData::new(String::from_str("ai"), String::from_str("ai_2"));
        let mut index: usize = 0;
        let mut r: usize = 0;
        while r < records.len()
            invariant
                r <= records@.len(),
                recs == records@.map_values(|rec: Option<Vec<String>>| record_view(rec)),
                old_games == games_view(old(self).game_data@),
                self.csv_file == old(self).csv_file,
                games_view(self.game_data@) == old_games + step_records(
                    load_start(),
                    recs.subrange(0, r as int),
                ).games,
                temp@ == step_records(load_start(), recs.subrange(0, r as int)).current,
                temp.periodic_state_of_cells@.len() == 9,
            decreases records@.len() - r,
        {
            let ghost prev = step_records(load_start(), recs.subrange(0, r as int));
            proof {
                assert(recs.subrange(0, r + 1).drop_last() =~= recs.subrange(0, r as int));
                assert(recs.subrange(0, r + 1).last() == recs[r as int]);
            }
            match &records[r] {
                Some(fields) => {
                    let ghost f = fields_view(*fields);
                    let ghost st0 = LoadState { index: 0, ..prev };
                    index = 0;
                    let mut j: usize = 0;
                    while j < fields.len()
                        invariant
                            j <= fields@.len(),
                            f == fields_view(*fields),
                            self.csv_file == old(self).csv_file,
                            games_view(self.game_data@) == old_games + step_fields(
                                st0,
                                f.subrange(0, j as int),
                            ).games,
                            temp@ == step_fields(st0, f.subrange(0, j as int)).current,
                            index == step_fields(st0, f.subrange(0, j as int)).index,
                            index <= j,
                            temp.periodic_state_of_cells@.len() == 9,
                        decreases fields@.len() - j,
                    {
                        let item = &fields[j];
                        let ghost st = step_fields(st0, f.subrange(0, j as int));
                        proof {
                            assert(f.subrange(0, j + 1).drop_last() =~= f.subrange(0, j as int));
                            assert(f.subrange(0, j + 1).last() == item@);
                            if item@.len() == 0 {
                                assert(item@ =~= Seq::<char>::empty());
                            }
                        }
                        match cell_value_of(item) {
                            Some(v) => {
                                if index < 9 {
                                    temp.periodic_state_of_cells[index] = v;
                                }
                                index = index + 1;
                            },
                            None => {
                                if *item == String::new() {
                                    if index >= 8 {
                                        temp.state_of_cells_list.push(temp.periodic_state_of_cells);
                                    }
                                    index = 0;
                                } else if *item == String::from_str("ai") || *item
                                    == String::from_str("ai_2") || *item == String::from_str(
                                    "draw",
                                ) {
                                    temp.winner.append(item.as_str());
                                    temp.state_of_cells_list.push(temp.periodic_state_of_cells);
                                    index = 0;
                                    proof {
                                        assert(temp@.states =~= st.current.states.push(
                                            st.current.periodic,
                                        ));
                                        assert(temp@ == (GameDataView {
                                            winner: st.current.winner + item@,
                                            states: st.current.states.push(st.current.periodic),
                                            ..st.current
                                        }));
                                    }
                                    let done = temp.duplicate();
                                    let ghost before = self.game_data@;
                                    let ghost dv = done@;
                                    self.game_data.push(done);
                                    proof {
                                        assert(games_view(self.game_data@) =~= games_view(
                                            before,
                                        ).push(dv));
                                    }
                                    temp =
                                    GameData::new(String::from_str("ai"), String::from_str("ai_2"));
                                }
                            },
                        }
                        proof {
                            let st1 = step_fields(st0, f.subrange(0, j + 1));
                            assert(st1 == step_item(st, item@));
                            assert(temp@.periodic =~= st1.current.periodic);
                            assert(temp@.states =~= st1.current.states);
                            assert(temp@.winner =~= st1.current.winner);
                            assert(temp@ == st1.current);
                            assert(games_view(self.game_data@) =~= old_games + st1.games);
                        }
                        j = j + 1;
                    }
                    proof {
                        assert(f.subrange(0, f.len() as int) =~= f);
                    }
                },
                None => {},
            }
            r = r + 1;
        }
        proof {
            assert(recs.subrange(0, recs.len() as int) =~= recs);
        }
    }

    /// Adds the games of a log whose text is `contents`.
    pub fn read_data(&mut self, contents: &[u8])
        ensures
            games_view(final(self).game_data@) == games_view(old(self).game_data@) + loaded_games(
                csv_records(contents@),
            ),
            final(self).csv_file == old(self).csv_file,
    {
        let records = read_records(contents);
        self.load_records(&records);
    }
}

} // verus!
