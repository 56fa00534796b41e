//! The board: nine cells, the eight winning lines, and the rules of a move.

use vstd::prelude::*;

verus! {

/// One square of the board.
pub struct Cell {
    pub owner: String,
    pub symbol: char,
    pub is_occupied: bool,
    pub index: i32,
    pub position: i32,
    pub winning_cell: bool,
    pub owner_id: i32,
}

impl Cell {
    fn new(
        owner: String,
        symbol: char,
        is_occupied: bool,
        index: i32,
        position: i32,
        winning_cell: bool,
        owner_id: i32,
    ) -> (r: Cell)
        ensures
            r == (Cell { owner, symbol, is_occupied, index, position, winning_cell, owner_id }),
    {
        Cell { owner, symbol, is_occupied, index, position, winning_cell, owner_id }
    }
}

/// The cell index that a keypad position names: positions 7, 8, 9 are the top
/// row, 4, 5, 6 the middle one and 1, 2, 3 the bottom one.
pub open spec fn keypad_index(position: int) -> int {
    (2 - (position - 1) / 3) * 3 + (position - 1) % 3
}

/// The cell index of a keypad position, extended beyond 1..=9 by the same
/// three cases.
pub open spec fn index_of_position(position: int) -> int {
    if position > 6 {
        position - 7
    } else if position > 3 {
        position - 1
    } else {
        position + 5
    }
}

/// Maps a keypad position to a cell index.
pub fn position_to_index(position: i32) -> (r: i32)
    ensures
        r == index_of_position(position as int),
        1 <= position <= 9 ==> 0 <= r < 9 && r == keypad_index(position as int),
{
    if position > 6 {
        position - 7
    } else if position > 3 {
        position - 1
    } else {
        position + 5
    }
}

/// The `j`-th cell of winning line `k`: the three rows, then the three
/// columns, then the two diagonals.
pub open spec fn line_cell(k: int, j: int) -> int {
    if k < 3 {
        3 * k + j
    } else if k < 6 {
        (k - 3) + 3 * j
    } else if k == 6 {
        4 * j
    } else {
        2 + 2 * j
    }
}

/// Winning line `k` passes through cell `idx`.
pub open spec fn on_line(k: int, idx: int) -> bool {
    line_cell(k, 0) == idx || line_cell(k, 1) == idx || line_cell(k, 2) == idx
}

/// Every cell of winning line `k` belongs to `name`.
pub open spec fn line_owned_by(cells: Seq<Cell>, k: int, name: Seq<char>) -> bool {
    forall|j: int| 0 <= j < 3 ==> (#[trigger] cells[line_cell(k, j)]).owner@ == name
}

/// Winning line `k` passes through `idx` and belongs wholly to `name`.
pub open spec fn completes_line(cells: Seq<Cell>, k: int, idx: int, name: Seq<char>) -> bool {
    0 <= k < 8 && on_line(k, idx) && line_owned_by(cells, k, name)
}

/// Some winning line through `idx` belongs wholly to `name`.
pub open spec fn wins_at(cells: Seq<Cell>, idx: int, name: Seq<char>) -> bool {
    exists|k: int| completes_line(cells, k, idx, name)
}

/// `k` is the first winning line, in line order, that `name` completes through `idx`.
pub open spec fn first_win(cells: Seq<Cell>, idx: int, name: Seq<char>, k: int) -> bool {
    &&& completes_line(cells, k, idx, name)
    &&& forall|k2: int| 0 <= k2 < k ==> !completes_line(cells, k2, idx, name)
}

/// The cells with those of winning line `k` flagged as winning.
pub open spec fn mark_line(cells: Seq<Cell>, k: int) -> Seq<Cell> {
    Seq::new(
        cells.len(),
        |i: int|
            if on_line(k, i) {
                Cell { winning_cell: true, ..cells[i] }
            } else {
                cells[i]
            },
    )
}

/// The character of decimal digit `d`.
pub open spec fn digit(d: int) -> char {
    (48 + d) as char
}

/// The keypad position shown on cell `i` once the board is set up.
pub open spec fn keypad_position(i: int) -> int {
    7 - 3 * (i / 3) + i % 3
}

/// The owner id that a player of this name leaves on a cell.
pub open spec fn owner_id_of(name: Seq<char>) -> int {
    if name == "ai"@ {
        1
    } else {
        -1
    }
}

/// The cells after `player` takes cell `idx`.
pub open spec fn claim(cells: Seq<Cell>, idx: int, player: Player) -> Seq<Cell> {
    cells.update(
        idx,
        Cell {
            owner: player.name,
            symbol: player.symbol,
            is_occupied: true,
            owner_id: owner_id_of(player.name@) as i32,
            ..cells[idx]
        },
    )
}

/// `lines` holds, in line order, every winning line through `idx`, and `ks`
/// gives the number of each.
pub open spec fn relevant_lines(ks: Seq<int>, lines: Seq<[usize; 3]>, idx: int) -> bool {
    &&& ks.len() == lines.len()
    &&& forall|q: int| 0 <= q < ks.len() ==> 0 <= #[trigger] ks[q] < 8 && on_line(ks[q], idx)
    &&& forall|q: int, j: int|
        0 <= q < ks.len() && 0 <= j < 3 ==> (#[trigger] lines[q][j]) as int == line_cell(ks[q], j)
    &&& forall|q1: int, q2: int| 0 <= q1 < q2 < ks.len() ==> #[trigger] ks[q1] < #[trigger] ks[q2]
    &&& forall|k: int|
        0 <= k < 8 && on_line(k, idx) ==> exists|q: int| 0 <= q < ks.len() && #[trigger] ks[q] == k
}

/// `after` and `outcome` are what `player` playing cell `idx` of `before`
/// leads to: a taken cell or a finished game refuses the move (the latter
/// remembering that the game is over); otherwise the cell is claimed, the move
/// counted, and the first line completed through it, if any, is flagged and
/// ends the game with `player` as its winner.
pub open spec fn plays(
    before: TableView,
    player: Player,
    idx: int,
    outcome: PlayOutcome,
    after: TableView,
) -> bool {
    let cells = claim(before.cells, idx, player);
    if before.cells[idx].is_occupied {
        outcome == PlayOutcome::Occupied && after == before
    } else if before.full || before.play_count > 8 {
        outcome == PlayOutcome::Full && after == (TableView { full: true, ..before })
    } else if wins_at(cells, idx, player.name@) {
        &&& outcome == PlayOutcome::Won
        &&& after.full
        &&& after.winner == player.name@
        &&& after.play_count == before.play_count + 1
        &&& exists|k: int| first_win(cells, idx, player.name@, k) && after.cells == mark_line(cells, k)
    } else {
        outcome == PlayOutcome::Placed && after == (TableView {
            cells,
            play_count: before.play_count + 1,
            ..before
        })
    }
}

/// The digits of an owner id in {-1, 0, 1}.
pub open spec fn owner_text(id: int) -> Seq<char> {
    if id == 1 {
        "1"@
    } else if id == -1 {
        "-1"@
    } else {
        "0"@
    }
}

/// Each cell's owner id followed by a comma.
pub open spec fn cells_text(cells: Seq<Cell>) -> Seq<char>
    decreases cells.len(),
{
    if cells.len() == 0 {
        Seq::empty()
    } else {
        cells_text(cells.drop_last()) + owner_text(cells.last().owner_id as int) + ","@
    }
}

/// One record of a board: a line break, the owner ids, then the winner.
pub open spec fn row_text(t: TableView) -> Seq<char> {
    "\n"@ + cells_text(t.cells) + t.winner
}

/// The board as the rules see it.
pub struct TableView {
    pub cells: Seq<Cell>,
    pub full: bool,
    pub play_count: int,
    pub winner: Seq<char>,
}

impl TableView {
    /// Nine cells, at most nine moves counted, owner ids in {-1, 0, 1} and
    /// positions that are single digits.
    pub open spec fn wf(self) -> bool {
        &&& self.cells.len() == 9
        &&& 0 <= self.play_count <= 9
        &&& forall|i: int|
            0 <= i < 9 ==> -1 <= (#[trigger] self.cells[i]).owner_id <= 1 && 0
                <= self.cells[i].position <= 9
    }
}

/// The board of one game.
pub struct Table {
    cells: Vec<Cell>,
    full: bool,
    play_count: i32,
    winning_combo: [[usize; 3]; 8],
    winner: String,
}

/// What became of a move.
#[derive(Clone, Copy, Debug, PartialEq, Eq, Structural)]
pub enum PlayOutcome {
    /// The cell was taken already; nothing changed.
    Occupied,
    /// The game is over; nothing was placed.
    Full,
    /// The cell was taken and the game goes on.
    Placed,
    /// The cell was taken and completed a line.
    Won,
}

impl View for Table {
    type V = TableView;

    closed spec fn view(&self) -> TableView {
        TableView {
            cells: self.cells@,
            full: self.full,
            play_count: self.play_count as int,
            winner: self.winner@,
        }
    }
}

/// The character of a decimal digit.
fn digit_char(d: i32) -> (c: char)
    requires
        0 <= d <= 9,
    ensures
        c == digit(d as int),
{
    let b: u8 = 48u8 + d as u8;
    b as char
}

impl Table {
    /// The stored winning lines are the eight of `line_cell`.
    pub closed spec fn lines_wf(&self) -> bool {
        forall|k: int, j: int|
            0 <= k < 8 && 0 <= j < 3 ==> self.winning_combo[k][j] as int == line_cell(k, j)
    }

    pub open spec fn wf(&self) -> bool {
        self@.wf() && self.lines_wf()
    }

    /// An empty board whose cells show their own indices as positions.
    pub fn new() -> (r: Table)
        ensures
            r.wf(),
            !r@.full,
            r@.play_count == 0,
            r@.winner.len() == 0,
            forall|i: int|
                0 <= i < 9 ==> {
                    let c = #[trigger] r@.cells[i];
                    &&& c.owner@.len() == 0
                    &&& c.symbol == ' '
                    &&& !c.is_occupied
                    &&& c.index == i
                    &&& c.position == i
                    &&& !c.winning_cell
                    &&& c.owner_id == 0
                },
    {
        let mut cells_in: Vec<Cell> = Vec::new();
        let mut i: i32 = 0;
        while i < 9
            invariant
                0 <= i <= 9,
                cells_in@.len() == i,
                forall|k: int|
                    0 <= k < i ==> {
                        let c = #[trigger] cells_in@[k];
                        &&& c.owner@.len() == 0
                        &&& c.symbol == ' '
                        &&& !c.is_occupied
                        &&& c.index == k
                        &&& c.position == k
                        &&& !c.winning_cell
                        &&& c.owner_id == 0
                    },
            decreases 9 - i,
        {
            cells_in.push(Cell::new(String::new(), ' ', false, i, i, false, 0));
            i = i + 1;
        }
        let t = Table {
            cells: cells_in,
            full: false,
            winning_combo: [
                [0, 1, 2],
                [3, 4, 5],
                [6, 7, 8],
                [0, 3, 6],
                [1, 4, 7],
                [2, 5, 8],
                [0, 4, 8],
                [2, 4, 6],
            ],
            play_count: 0,
            winner: String::new(),
        };
        assert(t.lines_wf());
        t
    }

    /// The winning lines through cell `index`, in line order.
    fn get_relevant_list(&self, index: i32) -> (r: Vec<[usize; 3]>)
        requires
            self.lines_wf(),
            0 <= index < 9,
        ensures
            exists|ks: Seq<int>| relevant_lines(ks, r@, index as int),
    {
        let mut relevant_list: Vec<[usize; 3]> = Vec::new();
        let ghost mut ks: Seq<int> = Seq::empty();
        let idx = index as usize;
        let mut k: usize = 0;
        while k < 8
            invariant
                self.lines_wf(),
                0 <= index < 9,
                idx == index,
                0 <= k <= 8,
                ks.len() == relevant_list@.len(),
                forall|q: int|
                    0 <= q < ks.len() ==> 0 <= #[trigger] ks[q] < k && on_line(ks[q], idx as int),
                forall|q: int, j: int|
                    0 <= q < ks.len() && 0 <= j < 3 ==> (#[trigger] relevant_list@[q][j]) as int
                        == line_cell(ks[q], j),
                forall|q1: int, q2: int|
                    0 <= q1 < q2 < ks.len() ==> #[trigger] ks[q1] < #[trigger] ks[q2],
                forall|k2: int|
                    0 <= k2 < k && on_line(k2, idx as int) ==> exists|q: int|
                        0 <= q < ks.len() && #[trigger] ks[q] == k2,
            decreases 8 - k,
        {
            let combo = self.winning_combo[k];
            proof {
                assert(combo[0] as int == line_cell(k as int, 0));
                assert(combo[1] as int == line_cell(k as int, 1));
                assert(combo[2] as int == line_cell(k as int, 2));
            }
            if combo[0] == idx || combo[1] == idx || combo[2] == idx {
                relevant_list.push(combo);
                proof {
                    let old_ks = ks;
                    ks = ks.push(k as int);
                    assert forall|k2: int|
                        0 <= k2 < k + 1 && on_line(k2, idx as int) implies exists|q: int|
                            0 <= q < ks.len() && #[trigger] ks[q] == k2 by {
                        if k2 == k {
                            assert(ks[ks.len() - 1] == k2);
                        } else {
                            let q = choose|q: int| 0 <= q < old_ks.len() && #[trigger] old_ks[q] == k2;
                            assert(ks[q] == k2);
                        }
                    }
                }
            } else {
                proof {
                    assert forall|k2: int|
                        0 <= k2 < k + 1 && on_line(k2, idx as int) implies exists|q: int|
                            0 <= q < ks.len() && #[trigger] ks[q] == k2 by {
                        if k2 == k {
                            assert(false);
                        }
                    }
                }
            }
            k = k + 1;
        }
        assert(relevant_lines(ks, relevant_list@, index as int));
        relevant_list
    }

    /// Whether `player` has completed a line through `index`; if so, the cells
    /// of the first such line are flagged as winning.
    fn check_winner(&mut self, player: &Player, index: i32) -> (r: bool)
        requires
            old(self).wf(),
            0 <= index < 9,
        ensures
            final(self).wf(),
            final(self).winning_combo == old(self).winning_combo,
            final(self)@.full == old(self)@.full,
            final(self)@.play_count == old(self)@.play_count,
            final(self)@.winner == old(self)@.winner,
            r == wins_at(old(self)@.cells, index as int, player.name@),
            r ==> exists|k: int|
                first_win(old(self)@.cells, index as int, player.name@, k)
                    && final(self)@.cells == mark_line(old(self)@.cells, k),
            !r ==> final(self)@.cells == old(self)@.cells,
    {
        let rel = self.get_relevant_list(index);
        let ghost ks = choose|ks: Seq<int>| relevant_lines(ks, rel@, index as int);
        let ghost cells0 = old(self).cells@;
        let ghost name = player.name@;
        let mut p: usize = 0;
        while p < rel.len()
            invariant
                self.wf(),
                self.cells@ == cells0,
                cells0 == old(self).cells@,
                self.full == old(self).full,
                self.play_count == old(self).play_count,
                self.winner == old(self).winner,
                self.winning_combo == old(self).winning_combo,
                0 <= index < 9,
                relevant_lines(ks, rel@, index as int),
                name == player.name@,
                p <= rel@.len(),
                forall|q: int| 0 <= q < p ==> !line_owned_by(cells0, #[trigger] ks[q], name),
            decreases rel@.len() - p,
        {
            let combo = rel[p];
            let ghost k = ks[p as int];
            let mut count: usize = 0;
            let mut j: usize = 0;
            while j < 3
                invariant
                    self.wf(),
                    self.cells@ == cells0,
                    cells0 == old(self).cells@,
                    self.full == old(self).full,
                    self.play_count == old(self).play_count,
                    self.winner == old(self).winner,
                    self.winning_combo == old(self).winning_combo,
                    name == player.name@,
                    0 <= k < 8,
                    forall|j2: int| 0 <= j2 < 3 ==> #[trigger] combo[j2] as int == line_cell(k, j2),
                    j <= 3,
                    count <= j,
                    count == j <==> forall|j2: int|
                        0 <= j2 < j ==> (#[trigger] cells0[line_cell(k, j2)]).owner@ == name,
                decreases 3 - j,
            {
                proof {
                    assert(combo[j as int] as int == line_cell(k, j as int));
                    assert(0 <= line_cell(k, j as int) < 9);
                }
                let ghost c0 = count;
                let owned = self.cells[combo[j]].owner == player.name;
                if owned {
                    count = count + 1;
                }
                proof {
                    assert(owned == (cells0[line_cell(k, j as int)].owner@ == name));
                    if count == j + 1 {
                        assert forall|j2: int|
                            0 <= j2 < j + 1 implies (#[trigger] cells0[line_cell(k, j2)]).owner@
                            == name by {
                            if j2 < j {
                            } else {
                                assert(j2 == j);
                            }
                        }
                    } else {
                        if forall|j2: int|
                            0 <= j2 < j + 1 ==> (#[trigger] cells0[line_cell(k, j2)]).owner@
                                == name {
                            assert(c0 == j);
                            assert(cells0[line_cell(k, j as int)].owner@ == name);
                        }
                    }
                }
                j = j + 1;
            }
            if count == 3 {
                proof {
                    assert(combo[0] as int == line_cell(k, 0));
                    assert(combo[1] as int == line_cell(k, 1));
                    assert(combo[2] as int == line_cell(k, 2));
                }
                self.cells[combo[0]].winning_cell = true;
                self.cells[combo[1]].winning_cell = true;
                self.cells[combo[2]].winning_cell = true;
                proof {
                    assert(completes_line(cells0, k, index as int, name));
                    assert forall|k2: int| 0 <= k2 < k implies !completes_line(
                        cells0,
                        k2,
                        index as int,
                        name,
                    ) by {
                        if completes_line(cells0, k2, index as int, name) {
                            let q2 = choose|q: int| 0 <= q < ks.len() && #[trigger] ks[q] == k2;
                            if q2 >= p {
                                if q2 > p {
                                    assert(ks[p as int] < ks[q2]);
                                }
                            }
                        }
                    }
                    assert(first_win(cells0, index as int, name, k));
                    assert(self.cells@ =~= mark_line(cells0, k));
                }
                return true;
            }
            p = p + 1;
        }
        proof {
            assert forall|k: int| !completes_line(cells0, k, index as int, name) by {
                if completes_line(cells0, k, index as int, name) {
                    let q = choose|q: int| 0 <= q < ks.len() && #[trigger] ks[q] == k;
                }
            }
        }
        false
    }

    /// Clears every cell for a new game: no owner, the cell's digit as its
    /// symbol, and its keypad position. Owner ids, the move count, the winner
    /// and whether the game is over are left as they are.
    pub fn init(&mut self)
        requires
            old(self).wf(),
        ensures
            final(self).wf(),
            final(self)@.full == old(self)@.full,
            final(self)@.play_count == old(self)@.play_count,
            final(self)@.winner == old(self)@.winner,
            forall|i: int|
                0 <= i < 9 ==> {
                    let c = #[trigger] final(self)@.cells[i];
                    &&& c.owner@.len() == 0
                    &&& c.symbol == digit(i)
                    &&& !c.is_occupied
                    &&& c.index == i
                    &&& c.position == keypad_position(i)
                    &&& !c.winning_cell
                    &&& c.owner_id == old(self)@.cells[i].owner_id
                },
    {
        let mut count: i32 = 0;
        let mut position: i32 = 7;
        let mut row_count: i32 = 0;
        while count < 9
            invariant
                self.wf(),
                self.full == old(self).full,
                self.play_count == old(self).play_count,
                self.winner == old(self).winner,
                self.winning_combo == old(self).winning_combo,
                0 <= count <= 9,
                row_count == count % 3,
                position == keypad_position(count as int),
                forall|i: int|
                    count <= i < 9 ==> #[trigger] self.cells@[i] == old(self).cells@[i],
                forall|i: int|
                    0 <= i < count ==> {
                        let c = #[trigger] self.cells@[i];
                        &&& c.owner@.len() == 0
                        &&& c.symbol == digit(i)
                        &&& !c.is_occupied
                        &&& c.index == i
                        &&& c.position == keypad_position(i)
                        &&& !c.winning_cell
                        &&& c.owner_id == old(self).cells@[i].owner_id
                    },
            decreases 9 - count,
        {
            let i = count as usize;
            let symbol = digit_char(count);
            self.cells[i].owner = String::new();
            self.cells[i].symbol = symbol;
            self.cells[i].is_occupied = false;
            self.cells[i].winning_cell = false;
            self.cells[i].position = position;
            self.cells[i].index = count;
            position = position + 1;
            count = count + 1;
            row_count = row_count + 1;
            if row_count == 3 {
                row_count = 0;
                position = position - 6;
            }
        }
    }

    /// The cell at `index`.
    pub fn get_cell(&self, index: i32) -> (r: &Cell)
        requires
            self.wf(),
            0 <= index < 9,
        ensures
            *r == self@.cells[index as int],
    {
        &self.cells[index as usize]
    }

    /// The name of the player who won, empty while nobody has.
    pub fn winner(&self) -> (r: &String)
        ensures
            r@ == self@.winner,
    {
        &self.winner
    }

    /// What cell `index` shows: its owner's symbol once taken, else the digit
    /// of its position.
    pub fn symbol_or_position(&self, index: i32) -> (r: char)
        requires
            self.wf(),
            0 <= index < 9,
        ensures
            r == (if self@.cells[index as int].is_occupied {
                self@.cells[index as int].symbol
            } else {
                digit(self@.cells[index as int].position as int)
            }),
    {
        let cell = &self.cells[index as usize];
        if cell.is_occupied {
            cell.symbol
        } else {
            digit_char(cell.position)
        }
    }

    /// The game is over once it was won or nine moves were counted; the
    /// answer is remembered.
    pub fn check_full(&mut self) -> (r: bool)
        requires
            old(self).wf(),
        ensures
            final(self).wf(),
            final(self)@ == (TableView {
                full: old(self)@.full || old(self)@.play_count > 8,
                ..old(self)@
            }),
            r == final(self)@.full,
    {
        if self.play_count > 8 {
            self.full = true;
        }
        self.full
    }

    /// Gives cell `index` to `player`, counts the move, and ends the game if
    /// it completes a line. Returns whether it did.
    fn place_cell(&mut self, player: &Player, index: i32) -> (won: bool)
        requires
            old(self).wf(),
            0 <= index < 9,
            old(self)@.play_count < 9,
        ensures
            final(self).wf(),
            won == wins_at(claim(old(self)@.cells, index as int, *player), index as int, player.name@),
            !won ==> final(self)@ == (TableView {
                cells: claim(old(self)@.cells, index as int, *player),
                play_count: old(self)@.play_count + 1,
                ..old(self)@
            }),
            won ==> {
                &&& final(self)@.full
                &&& final(self)@.winner == player.name@
                &&& final(self)@.play_count == old(self)@.play_count + 1
                &&& exists|k: int|
                    first_win(claim(old(self)@.cells, index as int, *player), index as int, player.name@, k)
                        && final(self)@.cells == mark_line(
                        claim(old(self)@.cells, index as int, *player),
                        k,
                    )
            },
    {
        let owner_id: i32 = if player.name == String::from_str("ai") {
            1
        } else {
            -1
        };
        let i = index as usize;
        self.cells[i].owner = player.name.clone();
        self.cells[i].symbol = player.symbol;
        self.cells[i].is_occupied = true;
        self.cells[i].owner_id = owner_id;
        self.play_count = self.play_count + 1;
        proof {
            assert(self.cells@ =~= claim(old(self)@.cells, index as int, *player));
        }
        if self.check_winner(player, index) {
            self.winner = player.name.clone();
            self.full = true;
            true
        } else {
            false
        }
    }

    /// `player` plays cell `index`: refused when the cell is taken or the game
    /// is over, else the cell is taken and the game ends if a line is complete.
    pub fn play(&mut self, player: &Player, index: i32) -> (r: PlayOutcome)
        requires
            old(self).wf(),
            0 <= index < 9,
        ensures
            final(self).wf(),
            plays(old(self)@, *player, index as int, r, final(self)@),
    {
        if self.cells[index as usize].is_occupied {
            return PlayOutcome::Occupied;
        }
        if self.check_full() {
            return PlayOutcome::Full;
        }
        if self.place_cell(player, index) {
            PlayOutcome::Won
        } else {
            PlayOutcome::Placed
        }
    }

    /// The board as one comma-separated record, to be appended to a game log.
    pub fn csv_row(&self) -> (r: String)
        requires
            self.wf(),
        ensures
            r@ == row_text(self@),
    {
        let mut csv = String::new();
        csv.append("\n");
        let mut i: usize = 0;
        while i < self.cells.len()
            invariant
                self.wf(),
                i <= 9,
                csv@ == "\n"@ + cells_text(self.cells@.subrange(0, i as int)),
            decreases 9 - i,
        {
            let id = self.cells[i].owner_id;
            if id == 1 {
                csv.append("1");
            } else if id == -1 {
                csv.append("-1");
            } else {
                csv.append("0");
            }
            csv.append(",");
            proof {
                assert(self.cells@.subrange(0, i + 1).drop_last() =~= self.cells@.subrange(
                    0,
                    i as int,
                ));
            }
            i = i + 1;
        }
        csv.append(self.winner.as_str());
        proof {
            assert(self.cells@.subrange(0, 9) =~= self.cells@);
        }
        csv
    }
}

/// A participant: a name, the symbol shown on the cells it takes, whether the
/// moves are drawn at random, and the keypad positions played so far.
pub struct Player {
    pub name: String,
    pub symbol: char,
    pub is_ai: bool,
    pub previous_moves: Vec<i32>,
}

/// Players named `ai` or `ai_2` move at random.
pub open spec fn is_ai_name(name: Seq<char>) -> bool {
    name == "ai"@ || name == "ai_2"@
}

impl Player {
    pub fn new(name: String, symbol: char) -> (r: Player)
        ensures
            r.name == name,
            r.symbol == symbol,
            r.is_ai == is_ai_name(name@),
            r.previous_moves@.len() == 0,
    {
        let is_ai = name == String::from_str("ai") || name == String::from_str("ai_2");
        Player { name, symbol, is_ai, previous_moves: Vec::new() }
    }

    /// Plays keypad position `index` on `table` and records it among this
    /// player's moves, whatever became of it.
    pub fn play(&mut self, table: &mut Table, index: i32) -> (r: PlayOutcome)
        requires
            old(table).wf(),
            0 <= index_of_position(index as int) < 9,
        ensures
            final(table).wf(),
            plays(old(table)@, *old(self), index_of_position(index as int), r, final(table)@),
            final(self).name == old(self).name,
            final(self).symbol == old(self).symbol,
            final(self).is_ai == old(self).is_ai,
            final(self).previous_moves@ == old(self).previous_moves@.push(index),
    {
        let r = table.play(self, position_to_index(index));
        self.previous_moves.push(index);
        r
    }
}

} // verus!
