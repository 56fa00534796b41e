//! A game between two players taking turns on one board.

use crate::board::{
    Player, PlayOutcome, Table, TableView, digit, index_of_position, is_ai_name, keypad_position,
    plays,
};
use rand::Rng;
use vstd::prelude::*;

verus! {

/// Relies on `rand::Rng::gen_range` over `rand::thread_rng`: a value drawn
/// from `0..n`; it panics on an empty range.
#[verifier::external_body]
fn random_below(n: usize) -> (r: usize)
    requires
        n > 0,
    ensures
        r < n,
{
    rand::thread_rng().gen_range(0..n)
}

/// Who sits at the board.
#[derive(Clone, Copy, Debug, PartialEq, Eq, Structural)]
pub enum Matchup {
    AiVsAi,
    HumanVsHuman,
    AiVsHuman,
}

/// Where the next move comes from.
#[derive(Clone, Copy, Debug, PartialEq, Eq, Structural)]
pub enum NextMove {
    /// A keypad position drawn for a random player.
    Drawn(i32),
    /// A human must enter it.
    FromHuman,
    /// A random player is in the game but every position was played.
    NoneLeft,
}

/// The matchup that a game type names: `ai_Vs_ai`, `human_Vs_human`, and
/// anything else for a random player against a human.
pub open spec fn matchup_spec(player_type: Seq<char>) -> Matchup {
    if player_type == "ai_Vs_ai"@ {
        Matchup::AiVsAi
    } else if player_type == "human_Vs_human"@ {
        Matchup::HumanVsHuman
    } else {
        Matchup::AiVsHuman
    }
}

/// The matchup that a game type names.
pub fn matchup_of(player_type: &String) -> (r: Matchup)
    ensures
        r == matchup_spec(player_type@),
{
    if *player_type == String::from_str("ai_Vs_ai") {
        Matchup::AiVsAi
    } else if *player_type == String::from_str("human_Vs_human") {
        Matchup::HumanVsHuman
    } else {
        Matchup::AiVsHuman
    }
}

/// A keypad position nobody has played yet.
pub open spec fn is_free(p: int, first: Seq<i32>, second: Seq<i32>) -> bool {
    1 <= p <= 9 && !first.contains(p as i32) && !second.contains(p as i32)
}

/// Whether `v` holds `x`.
fn holds(v: &Vec<i32>, x: i32) -> (r: bool)
    ensures
        r == v@.contains(x),
{
    let mut i: usize = 0;
    while i < v.len()
        invariant
            i <= v@.len(),
            forall|j: int| 0 <= j < i ==> v@[j] != x,
        decreases v@.len() - i,
    {
        if v[i] == x {
            return true;
        }
        i = i + 1;
    }
    false
}

/// Two players, their board, the positions each has played, and whose turn it is.
pub struct Game {
    pub tictac_board: Table,
    pub player1: Player,
    pub player2: Player,
    pub player1_moves: Vec<i32>,
    pub player2_moves: Vec<i32>,
    pub player1_turn: bool,
}

impl Game {
    /// A game on a freshly set up board, the first player to move.
    pub fn new(player1: Player, player2: Player) -> (r: Game)
        ensures
            r.tictac_board.wf(),
            !r.tictac_board@.full,
            r.tictac_board@.play_count == 0,
            r.tictac_board@.winner.len() == 0,
            forall|i: int|
                0 <= i < 9 ==> {
                    let c = #[trigger] r.tictac_board@.cells[i];
                    &&& c.owner@.len() == 0
                    &&& c.symbol == digit(i)
                    &&& !c.is_occupied
                    &&& c.index == i
                    &&& c.position == keypad_position(i)
                    &&& !c.winning_cell
                    &&& c.owner_id == 0
                },
            r.player1 == player1,
            r.player2 == player2,
            r.player1_moves@.len() == 0,
            r.player2_moves@.len() == 0,
            r.player1_turn,
    {
        let mut tictac_board = Table::new();
        tictac_board.init();
        Game {
            tictac_board,
            player1,
            player2,
            player1_moves: Vec::new(),
            player2_moves: Vec::new(),
            player1_turn: true,
        }
    }

    /// The two players of a game type. Two random players are `ai` with X
    /// and `ai_2` with O; two humans take the names and symbols entered; a
    /// mixed game pairs `ai`, with the first symbol entered, with the second
    /// human.
    pub fn init_player(
        player_type: String,
        first_name: String,
        first_symbol: char,
        second_name: String,
        second_symbol: char,
    ) -> (r: (Player, Player))
        ensures
            r.0.previous_moves@.len() == 0,
            r.1.previous_moves@.len() == 0,
            r.0.is_ai == is_ai_name(r.0.name@),
            r.1.is_ai == is_ai_name(r.1.name@),
            matchup_spec(player_type@) == Matchup::AiVsAi ==> r.0.name@ == "ai"@ && r.0.symbol
                == 'X' && r.1.name@ == "ai_2"@ && r.1.symbol == 'O',
            matchup_spec(player_type@) == Matchup::HumanVsHuman ==> r.0.name == first_name
                && r.0.symbol == first_symbol && r.1.name == second_name && r.1.symbol
                == second_symbol,
            matchup_spec(player_type@) == Matchup::AiVsHuman ==> r.0.name@ == "ai"@ && r.0.symbol
                == first_symbol && r.1.name == second_name && r.1.symbol == second_symbol,
    {
        match matchup_of(&player_type) {
            Matchup::AiVsAi => {
                let player1 = Player::new(String::from_str("ai"), 'X');
                let player2 = Player::new(String::from_str("ai_2"), 'O');
                (player1, player2)
            },
            Matchup::HumanVsHuman => {
                let player1 = Player::new(first_name, first_symbol);
                let player2 = Player::new(second_name, second_symbol);
                (player1, player2)
            },
            Matchup::AiVsHuman => {
                let player1 = Player::new(String::from_str("ai"), first_symbol);
                let player2 = Player::new(second_name, second_symbol);
                (player1, player2)
            },
        }
    }

    /// The keypad positions that neither player has played, in increasing order.
    pub fn free_moves(&self) -> (r: Vec<i32>)
        ensures
            forall|i: int| 0 <= i < r@.len() ==> is_free(#[trigger] r@[i] as int, self.player1_moves@, self.player2_moves@),
            forall|p: int| is_free(p, self.player1_moves@, self.player2_moves@) ==> r@.contains(p as i32),
            forall|i: int, j: int| 0 <= i < j < r@.len() ==> #[trigger] r@[i] < #[trigger] r@[j],
    {
        let mut free: Vec<i32> = Vec::new();
        let mut p: i32 = 1;
        while p <= 9
            invariant
                1 <= p <= 10,
                forall|i: int| 0 <= i < free@.len() ==> is_free(#[trigger] free@[i] as int, self.player1_moves@, self.player2_moves@) && free@[i] < p,
                forall|q: int| 1 <= q < p && is_free(q, self.player1_moves@, self.player2_moves@) ==> free@.contains(q as i32),
                forall|i: int, j: int| 0 <= i < j < free@.len() ==> #[trigger] free@[i] < #[trigger] free@[j],
            decreases 10 - p,
        {
            let ghost before = free@;
            if !holds(&self.player1_moves, p) && !holds(&self.player2_moves, p) {
                free.push(p);
                proof {
                    assert(free@[free@.len() - 1] == p);
                    assert forall|q: int|
                        1 <= q < p + 1 && is_free(
                            q,
                            self.player1_moves@,
                            self.player2_moves@,
                        ) implies free@.contains(q as i32) by {
                        if q < p {
                            let i = choose|i: int| 0 <= i < before.len() && before[i] == q as i32;
                            assert(free@[i] == q as i32);
                        }
                    }
                }
            }
            p = p + 1;
        }
        free
    }

    /// A random player's move: a keypad position that neither player has
    /// played, drawn with equal chances, or `None` when there is none.
    pub fn ai_play_move(&mut self) -> (r: Option<i32>)
        ensures
            *final(self) == *old(self),
            r is None <==> forall|p: int| !is_free(p, old(self).player1_moves@, old(self).player2_moves@),
            r matches Some(p) ==> is_free(p as int, old(self).player1_moves@, old(self).player2_moves@),
    {
        let free = self.free_moves();
        if free.len() == 0 {
            return None;
        }
        let j = random_below(free.len());
        Some(free[j])
    }

    /// Where the next move comes from: drawn at random when either player
    /// is a random player, else entered by a human.
    pub fn get_input(&mut self) -> (r: NextMove)
        ensures
            *final(self) == *old(self),
            !old(self).player1.is_ai && !old(self).player2.is_ai ==> r == NextMove::FromHuman,
            old(self).player1.is_ai || old(self).player2.is_ai ==> {
                ||| r == NextMove::NoneLeft && forall|p: int| !is_free(p, old(self).player1_moves@, old(self).player2_moves@)
                ||| r matches NextMove::Drawn(p) && is_free(p as int, old(self).player1_moves@, old(self).player2_moves@)
            },
    {
        if self.player1.is_ai || self.player2.is_ai {
            match self.ai_play_move() {
                Some(p) => NextMove::Drawn(p),
                None => NextMove::NoneLeft,
            }
        } else {
            NextMove::FromHuman
        }
    }

    /// One turn: the player whose turn it is plays keypad position `input`,
    /// which is recorded for that player; then the game is over if the board
    /// is, else the turn passes. Returns what became of the move and whether
    /// the game is over.
    pub fn play(&mut self, input: i32) -> (r: (PlayOutcome, bool))
        requires
            old(self).tictac_board.wf(),
            0 <= index_of_position(input as int) < 9,
        ensures
            final(self).tictac_board.wf(),
            exists|mid: TableView|
                plays(
                    old(self).tictac_board@,
                    if old(self).player1_turn {
                        old(self).player1
                    } else {
                        old(self).player2
                    },
                    index_of_position(input as int),
                    r.0,
                    mid,
                ) && final(self).tictac_board@ == (TableView {
                    full: mid.full || mid.play_count > 8,
                    ..mid
                }),
            r.1 == final(self).tictac_board@.full,
            final(self).player1_turn == (if r.1 {
                old(self).player1_turn
            } else {
                !old(self).player1_turn
            }),
            old(self).player1_turn ==> final(self).player1_moves@ == old(self).player1_moves@.push(input)
                && final(self).player1.previous_moves@ == old(self).player1.previous_moves@.push(input)
                && final(self).player2 == old(self).player2
                && final(self).player2_moves == old(self).player2_moves,
            !old(self).player1_turn ==> final(self).player2_moves@ == old(self).player2_moves@.push(input)
                && final(self).player2.previous_moves@ == old(self).player2.previous_moves@.push(input)
                && final(self).player1 == old(self).player1
                && final(self).player1_moves == old(self).player1_moves,
            final(self).player1.name == old(self).player1.name,
            final(self).player1.symbol == old(self).player1.symbol,
            final(self).player1.is_ai == old(self).player1.is_ai,
            final(self).player2.name == old(self).player2.name,
            final(self).player2.symbol == old(self).player2.symbol,
            final(self).player2.is_ai == old(self).player2.is_ai,
    {
        let outcome = if self.player1_turn {
            let o = self.player1.play(&mut self.tictac_board, input);
            self.player1_moves.push(input);
            o
        } else {
            let o = self.player2.play(&mut self.tictac_board, input);
            self.player2_moves.push(input);
            o
        };
        let ghost mid = self.tictac_board@;
        let over = self.tictac_board.check_full();
        if !over {
            self.player1_turn = !self.player1_turn;
        }
        (outcome, over)
    }
}

} // verus!
