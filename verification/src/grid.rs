//! The 10x10 battleship board: cells, per-cell state and the grid itself.
//!
//! A [`Cell`] is a coordinate on the board; the x coordinate corresponds to
//! the column (0-9) and the y coordinate to the row (0-9).  In the
//! human-readable label form the column is a letter A-J and the row a number
//! 1-10, so the cell (0, 0) is "A1" and (9, 9) is "J10".
//!
//! A [`Grid`] is a passive record of one [`CellState`] per cell.  It does not
//! enforce any transition discipline: marking a cell overwrites whatever was
//! there before.

use vstd::prelude::*;
use vstd::string::*;

verus! {

/// Greatest valid value of either coordinate of a cell.
pub const MAX_COORD: u8 = 9;

/// Number of cells along one side of the board.
pub const BOARD_SIDE: u8 = 10;

/// The state of one cell of the battleship grid.
///
/// A cell starts empty, may be occupied by a ship part, and records the
/// outcome of a shot aimed at it: a miss if it was empty, a hit if it was
/// occupied.
#[derive(Debug, PartialEq, Eq, Hash, Clone, Copy, Structural)]
pub enum CellState {
    /// Nothing here, and no shot has been aimed at this cell.
    Empty,
    /// Occupied by a ship part that has not been hit yet.
    Occupied,
    /// A shot landed here while the cell was empty.
    Miss,
    /// A shot landed here while the cell was occupied.
    Hit,
}

impl Default for CellState {
    /// The default state of a cell is [`CellState::Empty`].
    fn default() -> (r: Self)
        ensures
            r == CellState::Empty,
    {
        CellState::Empty
    }
}

/// A coordinate rejected by the strict constructor or a label that does not
/// name a cell.
#[derive(Debug, PartialEq, Eq, Hash, Clone)]
pub enum Error {
    /// The x value is out of range.
    InvalidX(u8),
    /// The y value is out of range.
    InvalidY(u8),
    /// Both coordinates are out of range.
    InvalidCoordinates(u8, u8),
    /// The text does not denote a cell; carries the original text.
    InvalidFormat(String),
}

/// A cell of the battleship grid, with x (column) and y (row) coordinates.
///
/// From the player's perspective (0, 0) is the top-left corner and (9, 9)
/// the bottom-right one.  A cell only holds the coordinates; all state
/// belongs to the [`Grid`].
#[derive(Debug, PartialEq, Eq, Hash, Copy, Clone, Structural)]
pub struct Cell {
    /// The x coordinate (column, 0-9).
    pub x: u8,
    /// The y coordinate (row, 0-9).
    pub y: u8,
}

impl Cell {
    /// Both coordinates lie on the board.
    pub open spec fn on_board(self) -> bool {
        self.x <= MAX_COORD && self.y <= MAX_COORD
    }

    /// Creates a cell from the given coordinates, rejecting any that lie
    /// outside the board and reporting which axis was out of range.
    pub fn new(x: u8, y: u8) -> (r: Result<Self, Error>)
        ensures
            match r {
                Ok(c) => x <= MAX_COORD && y <= MAX_COORD && c.x == x && c.y == y,
                Err(e) => (x > MAX_COORD || y > MAX_COORD) && e == (if x > MAX_COORD && y
                    > MAX_COORD {
                    Error::InvalidCoordinates(x, y)
                } else if x > MAX_COORD {
                    Error::InvalidX(x)
                } else {
                    Error::InvalidY(y)
                }),
            },
    {
        if x > MAX_COORD {
            if y > MAX_COORD {
                Err(Error::InvalidCoordinates(x, y))
            } else {
                Err(Error::InvalidX(x))
            }
        } else if y > MAX_COORD {
            Err(Error::InvalidY(y))
        } else {
            Ok(Cell { x, y })
        }
    }

    /// Creates a cell from the given coordinates, clamping each one to the
    /// nearest valid value.
    pub fn bounded(x: u8, y: u8) -> (c: Self)
        ensures
            c.x == if x > MAX_COORD {
                MAX_COORD as int
            } else {
                x as int
            },
            c.y == if y > MAX_COORD {
                MAX_COORD as int
            } else {
                y as int
            },
            c.on_board(),
    {
        let cx: u8 = if x > MAX_COORD {
            MAX_COORD
        } else {
            x
        };
        let cy: u8 = if y > MAX_COORD {
            MAX_COORD
        } else {
            y
        };
        Cell { x: cx, y: cy }
    }

    /// Returns a cell drawn uniformly at random from the board.
    pub fn random() -> (c: Self)
        ensures
            c.on_board(),
    {
        let x: u8 = rand::random::<u8>() % BOARD_SIDE;
        let y: u8 = rand::random::<u8>() % BOARD_SIDE;
        Cell { x, y }
    }

    /// Returns the x coordinate of this cell.
    pub fn x(&self) -> (r: u8)
        ensures
            r == self.x,
    {
        self.x
    }

    /// Returns the y coordinate of this cell.
    pub fn y(&self) -> (r: u8)
        ensures
            r == self.y,
    {
        self.y
    }

    /// Moves this cell one column to the left, wrapping around to the
    /// rightmost column when it is at the leftmost one.
    pub fn move_left(&mut self)
        requires
            old(self).on_board(),
        ensures
            final(self).y == old(self).y,
            final(self).x == if old(self).x == 0 {
                MAX_COORD as int
            } else {
                old(self).x - 1
            },
            final(self).on_board(),
    {
        if self.x == 0 {
            self.x = MAX_COORD;
        } else {
            self.x = self.x - 1;
        }
    }

    /// Moves this cell one column to the right, wrapping around to the
    /// leftmost column when it is at the rightmost one.
    pub fn move_right(&mut self)
        requires
            old(self).on_board(),
        ensures
            final(self).y == old(self).y,
            final(self).x == if old(self).x == MAX_COORD {
                0
            } else {
                old(self).x + 1
            },
            final(self).on_board(),
    {
        if self.x == MAX_COORD {
            self.x = 0;
        } else {
            self.x = self.x + 1;
        }
    }

    /// Moves this cell one row up, wrapping around to the bottom row when it
    /// is at the top one.
    pub fn move_up(&mut self)
        requires
            old(self).on_board(),
        ensures
            final(self).x == old(self).x,
            final(self).y == if old(self).y == 0 {
                MAX_COORD as int
            } else {
                old(self).y - 1
            },
            final(self).on_board(),
    {
        if self.y == 0 {
            self.y = MAX_COORD;
        } else {
            self.y = self.y - 1;
        }
    }

    /// Moves this cell one row down, wrapping around to the top row when it
    /// is at the bottom one.
    pub fn move_down(&mut self)
        requires
            old(self).on_board(),
        ensures
            final(self).x == old(self).x,
            final(self).y == if old(self).y == MAX_COORD {
                0
            } else {
                old(self).y + 1
            },
            final(self).on_board(),
    {
        if self.y == MAX_COORD {
            self.y = 0;
        } else {
            self.y = self.y + 1;
        }
    }
}

/// Column index named by a letter: 0 for 'A' or 'a' through 9 for 'J' or
/// 'j', and -1 for any other character.
pub open spec fn letter_index(c: char) -> int {
    if 'A' as int <= c as int && c as int <= 'J' as int {
        c as int - 'A' as int
    } else if 'a' as int <= c as int && c as int <= 'j' as int {
        c as int - 'a' as int
    } else {
        -1
    }
}

/// Value of a decimal digit character, and -1 for any other character.
pub open spec fn digit_value(c: char) -> int {
    if '0' as int <= c as int && c as int <= '9' as int {
        c as int - '0' as int
    } else {
        -1
    }
}

/// Every character of the sequence is a decimal digit.
pub open spec fn all_digits(s: Seq<char>) -> bool {
    forall|i: int| 0 <= i < s.len() ==> digit_value(#[trigger] s[i]) >= 0
}

/// Numeric value of a sequence of decimal digits (0 when empty).
pub open spec fn digits_value(s: Seq<char>) -> int
    decreases s.len(),
{
    if s.len() == 0 {
        0
    } else {
        digits_value(s.drop_last()) * 10 + digit_value(s.last())
    }
}

/// The sequence is a well-formed cell label: one letter A-J (either case)
/// followed by one or more decimal digits whose value is 1 to 10.  Leading
/// zeros are permitted; nothing else is.
pub open spec fn valid_label(s: Seq<char>) -> bool {
    &&& s.len() >= 2
    &&& letter_index(s[0]) >= 0
    &&& all_digits(s.skip(1))
    &&& 1 <= digits_value(s.skip(1)) <= 10
}

/// The cell a well-formed label names: the letter gives the column, the
/// number minus one the row.
pub open spec fn label_cell(s: Seq<char>) -> Cell {
    Cell { x: letter_index(s[0]) as u8, y: (digits_value(s.skip(1)) - 1) as u8 }
}

/// The numeric value of a digit sequence, saturated at 11 so that it fits a
/// `u8` however long the sequence is.  Values 11 and above are all invalid
/// for a label, so saturating there loses nothing.
pub open spec fn capped_value(v: int) -> int {
    if v > 11 {
        11
    } else {
        v
    }
}

/// One column letter A-J as text, upper case.
fn column_letter(x: u8) -> (r: &'static str)
    requires
        x <= MAX_COORD,
    ensures
        r@ == seq![spec_column_letter(x as int)],
{
    proof {
        reveal_strlit("A");
        reveal_strlit("B");
        reveal_strlit("C");
        reveal_strlit("D");
        reveal_strlit("E");
        reveal_strlit("F");
        reveal_strlit("G");
        reveal_strlit("H");
        reveal_strlit("I");
        reveal_strlit("J");
        assert("A"@ =~= seq!['A']);
        assert("B"@ =~= seq!['B']);
        assert("C"@ =~= seq!['C']);
        assert("D"@ =~= seq!['D']);
        assert("E"@ =~= seq!['E']);
        assert("F"@ =~= seq!['F']);
        assert("G"@ =~= seq!['G']);
        assert("H"@ =~= seq!['H']);
        assert("I"@ =~= seq!['I']);
        assert("J"@ =~= seq!['J']);
    }
    match x {
        0 => "A",
        1 => "B",
        2 => "C",
        3 => "D",
        4 => "E",
        5 => "F",
        6 => "G",
        7 => "H",
        8 => "I",
        _ => "J",
    }
}

/// One row number 1-10 as text, without leading zeros.
fn row_number(y: u8) -> (r: &'static str)
    requires
        y <= MAX_COORD,
    ensures
        r@ == spec_row_digits(y as int),
{
    proof {
        reveal_strlit("1");
        reveal_strlit("2");
        reveal_strlit("3");
        reveal_strlit("4");
        reveal_strlit("5");
        reveal_strlit("6");
        reveal_strlit("7");
        reveal_strlit("8");
        reveal_strlit("9");
        reveal_strlit("10");
        assert("1"@ =~= seq!['1']);
        assert("2"@ =~= seq!['2']);
        assert("3"@ =~= seq!['3']);
        assert("4"@ =~= seq!['4']);
        assert("5"@ =~= seq!['5']);
        assert("6"@ =~= seq!['6']);
        assert("7"@ =~= seq!['7']);
        assert("8"@ =~= seq!['8']);
        assert("9"@ =~= seq!['9']);
        assert("10"@ =~= seq!['1', '0']);
    }
    match y {
        0 => "1",
        1 => "2",
        2 => "3",
        3 => "4",
        4 => "5",
        5 => "6",
        6 => "7",
        7 => "8",
        8 => "9",
        _ => "10",
    }
}

impl Cell {
    /// Renders this cell as its human-readable label: column letter A-J
    /// followed by the 1-based row number, no leading zeros.
    pub fn format_label(&self) -> (r: String)
        requires
            self.on_board(),
        ensures
            r@ == spec_label(*self),
            valid_label(r@),
            label_cell(r@) == *self,
    {
        let letter: &'static str = column_letter(self.x);
        let number: &'static str = row_number(self.y);
        let out: String = String::from_str(letter).concat(number);
        proof {
            assert(out@ =~= spec_label(*self));
            lemma_spec_label_valid(*self);
        }
        out
    }

    /// Parses a human-readable cell label: a single letter A-J (either
    /// case) followed by the 1-based row number 1-10, with leading zeros
    /// permitted.  Any other text is rejected with
    /// [`Error::InvalidFormat`] carrying the original text.
    pub fn parse_label(s: &str) -> (r: Result<Self, Error>)
        ensures
            match r {
                Ok(c) => valid_label(s@) && c == label_cell(s@) && c.on_board(),
                Err(e) => !valid_label(s@) && (e matches Error::InvalidFormat(t) && t@ == s@),
            },
    {
        let n: usize = s.unicode_len();
        if n < 2 {
            return Err(Error::InvalidFormat(s.to_owned()));
        }
        let first: char = s.get_char(0);
        let fc: u32 = first as u32;
        let x: u8 = if fc >= 65 && fc <= 74 {
            (fc - 65) as u8
        } else if fc >= 97 && fc <= 106 {
            (fc - 97) as u8
        } else {
            return Err(Error::InvalidFormat(s.to_owned()));
        };
        assert(letter_index(s@[0]) == x as int);

        let mut value: u8 = 0;
        let mut i: usize = 1;
        while i < n
            invariant
                1 <= i <= n,
                n == s@.len(),
                value <= 11,
                all_digits(s@.subrange(1, i as int)),
                value == capped_value(digits_value(s@.subrange(1, i as int))),
            decreases n - i,
        {
            let c: char = s.get_char(i);
            let cc: u32 = c as u32;
            if cc < 48 || cc > 57 {
                assert(digit_value(s@[i as int]) < 0);
                assert(s@.skip(1)[i as int - 1] == s@[i as int]);
                assert(!all_digits(s@.skip(1)));
                return Err(Error::InvalidFormat(s.to_owned()));
            }
            let d: u8 = (cc - 48) as u8;
            let ghost prefix: Seq<char> = s@.subrange(1, i as int);
            let ghost extended: Seq<char> = s@.subrange(1, i as int + 1);
            proof {
                assert(extended.drop_last() =~= prefix);
                assert(extended.last() == s@[i as int]);
                assert(digits_value(extended) == digits_value(extended.drop_last()) * 10
                    + digit_value(extended.last()));
                assert(digits_value(extended) == digits_value(prefix) * 10 + d);
            }
            let widened: u8 = value * 10 + d;
            value = if widened > 11 {
                11
            } else {
                widened
            };
            i = i + 1;
        }
        proof {
            assert(s@.subrange(1, n as int) =~= s@.skip(1));
        }
        if value == 0 || value == 11 {
            return Err(Error::InvalidFormat(s.to_owned()));
        }
        Ok(Cell { x, y: value - 1 })
    }
}

/// Round trip of the label form: the label of any board cell is a valid
/// label, and parsing it yields the same cell again.  `format_label`
/// produces exactly `spec_label(c)` and `parse_label` accepts exactly the
/// valid labels, returning `label_cell` of them, so the executable round
/// trip follows from this statement and those two contracts.
pub proof fn lemma_label_round_trip(c: Cell)
    requires
        c.on_board(),
    ensures
        valid_label(spec_label(c)),
        label_cell(spec_label(c)) == c,
{
    lemma_spec_label_valid(c);
}

/// The label of a board cell as a sequence of characters: the column letter
/// then the 1-based row number.
pub open spec fn spec_label(c: Cell) -> Seq<char> {
    seq![spec_column_letter(c.x as int)] + spec_row_digits(c.y as int)
}

/// Upper-case column letter of a column index.
pub open spec fn spec_column_letter(x: int) -> char {
    if x == 0 {
        'A'
    } else if x == 1 {
        'B'
    } else if x == 2 {
        'C'
    } else if x == 3 {
        'D'
    } else if x == 4 {
        'E'
    } else if x == 5 {
        'F'
    } else if x == 6 {
        'G'
    } else if x == 7 {
        'H'
    } else if x == 8 {
        'I'
    } else {
        'J'
    }
}

/// Digits of the 1-based row number of a row index.
pub open spec fn spec_row_digits(y: int) -> Seq<char> {
    if y == 0 {
        seq!['1']
    } else if y == 1 {
        seq!['2']
    } else if y == 2 {
        seq!['3']
    } else if y == 3 {
        seq!['4']
    } else if y == 4 {
        seq!['5']
    } else if y == 5 {
        seq!['6']
    } else if y == 6 {
        seq!['7']
    } else if y == 7 {
        seq!['8']
    } else if y == 8 {
        seq!['9']
    } else {
        seq!['1', '0']
    }
}

/// Value of a single digit as a digit sequence.
proof fn lemma_digits_value_single(c: char)
    ensures
        digits_value(seq![c]) == digit_value(c),
{
    reveal_with_fuel(digits_value, 2);
    assert(seq![c].drop_last() =~= Seq::<char>::empty());
    assert(digits_value(seq![c]) == digits_value(seq![c].drop_last()) * 10 + digit_value(
        seq![c].last(),
    ));
}

proof fn lemma_spec_label_valid(c: Cell)
    requires
        c.on_board(),
    ensures
        valid_label(spec_label(c)),
        label_cell(spec_label(c)) == c,
{
    reveal_with_fuel(digits_value, 3);
    let s = spec_label(c);
    let digits = spec_row_digits(c.y as int);
    assert(s.skip(1) =~= digits);
    if c.y == 9 {
        assert(digits.drop_last() =~= seq!['1']);
        lemma_digits_value_single('1');
        assert(digits_value(digits) == digits_value(digits.drop_last()) * 10 + digit_value(
            digits.last(),
        ));
        assert(digits_value(digits) == 10);
    } else {
        lemma_digits_value_single(digits.last());
        assert(digits =~= seq![digits.last()]);
        assert(digits_value(digits) == c.y + 1);
    }
    assert(letter_index(s[0]) == c.x as int);
}

/// The battleship grid: a passive 10x10 record of one [`CellState`] per
/// cell.  Marking a cell overwrites its state without checking whether the
/// transition makes sense for the game; that discipline belongs to the
/// callers.
#[derive(Debug, PartialEq, Eq, Hash)]
pub struct Grid {
    /// The cell states in row-major order; always exactly 100 entries.
    pub cells: Vec<CellState>,
}

impl Grid {
    /// The grid holds exactly one state per board cell.
    pub open spec fn wf(self) -> bool {
        self.cells.len() == 100
    }

    /// The state recorded for a board cell.
    pub open spec fn state_at(self, c: Cell) -> CellState {
        self.cells[c.y as int * 10 + c.x as int]
    }

    /// Every cell of the grid is empty.
    pub open spec fn spec_is_empty(self) -> bool {
        forall|c: Cell| c.on_board() ==> self.state_at(c) == CellState::Empty
    }

    /// Returns `true` when every cell of the grid is marked
    /// [`CellState::Empty`].
    pub fn is_empty(&self) -> (r: bool)
        requires
            self.wf(),
        ensures
            r == self.spec_is_empty(),
    {
        let mut i: usize = 0;
        while i < 100
            invariant
                i <= 100,
                self.wf(),
                forall|j: int| 0 <= j < i ==> self.cells[j] == CellState::Empty,
            decreases 100 - i,
        {
            if !matches!(self.cells[i], CellState::Empty) {
                proof {
                    let bad = Cell { x: (i as int % 10) as u8, y: (i as int / 10) as u8 };
                    assert(bad.on_board());
                    assert(bad.y as int * 10 + bad.x as int == i as int);
                    assert(self.state_at(bad) != CellState::Empty);
                }
                return false;
            }
            i = i + 1;
        }
        proof {
            assert forall|c: Cell| c.on_board() implies self.state_at(c) == CellState::Empty by {
                assert((c.y as int * 10 + c.x as int) < 100);
            }
        }
        true
    }

    /// The state of the given cell.
    pub fn at(&self, cell: &Cell) -> (r: &CellState)
        requires
            self.wf(),
            cell.on_board(),
        ensures
            *r == self.state_at(*cell),
    {
        let i: usize = cell.y as usize * 10 + cell.x as usize;
        &self.cells[i]
    }

    /// Overwrites the given cell with the given state, whatever its
    /// previous state was.
    pub fn mark(&mut self, cell: &Cell, state: CellState)
        requires
            old(self).wf(),
            cell.on_board(),
        ensures
            final(self).wf(),
            final(self).state_at(*cell) == state,
            forall|c: Cell|
                c.on_board() && c != *cell ==> final(self).state_at(c) == old(self).state_at(c),
    {
        let i: usize = cell.y as usize * 10 + cell.x as usize;
        self.cells[i] = state;
        proof {
            assert forall|c: Cell|
                c.on_board() && c != *cell implies self.state_at(c) == old(self).state_at(c) by {
                assert(c.y as int * 10 + c.x as int != i as int);
            }
        }
    }
}

impl Grid {
    /// Marks every cell of the ship's footprint as occupied, leaving all
    /// other cells as they were.
    pub fn add_ship(&mut self, ship: &crate::ship::Ship)
        requires
            old(self).wf(),
            ship.wf(),
        ensures
            final(self).wf(),
            forall|c: Cell|
                c.on_board() ==> final(self).state_at(c) == if ship.spec_contains(c) {
                    CellState::Occupied
                } else {
                    old(self).state_at(c)
                },
    {
        let cells = ship.occupied_cells();
        let mut i: usize = 0;
        while i < cells.len()
            invariant
                self.wf(),
                ship.wf(),
                i <= cells@.len(),
                cells@.len() == ship.ship_size,
                forall|j: int| 0 <= j < cells@.len() ==> cells@[j] == ship.cell_at(j),
                forall|c: Cell|
                    c.on_board() ==> self.state_at(c) == if exists|j: int|
                        0 <= j < i && ship.cell_at(j) == c {
                        CellState::Occupied
                    } else {
                        old(self).state_at(c)
                    },
            decreases cells@.len() - i,
        {
            let cell = cells[i];
            proof {
                assert(cell == ship.cell_at(i as int));
                assert(ship.spec_contains(cell)) by {
                    crate::ship::lemma_footprint_exact(*ship);
                }
                crate::ship::lemma_contains_on_board(*ship, cell);
            }
            self.mark(&cell, CellState::Occupied);
            proof {
                assert forall|c: Cell|
                    c.on_board() implies self.state_at(c) == (if exists|j: int|
                    0 <= j < i + 1 && ship.cell_at(j) == c {
                    CellState::Occupied
                } else {
                    old(self).state_at(c)
                }) by {
                    if c == cell {
                        assert(ship.cell_at(i as int) == c);
                    }
                }
            }
            i = i + 1;
        }
        proof {
            crate::ship::lemma_footprint_exact(*ship);
            assert forall|c: Cell|
                c.on_board() implies self.state_at(c) == (if ship.spec_contains(c) {
                CellState::Occupied
            } else {
                old(self).state_at(c)
            }) by {
                if ship.spec_contains(c) {
                    assert(ship.cell_at(ship.seg_index(c)) == c);
                }
            }
        }
    }

    /// Builds a grid whose only non-empty cells are the footprints of the
    /// given ships, all marked occupied.
    pub fn from_ships(ships: &[crate::ship::Ship]) -> (r: Grid)
        requires
            forall|i: int| 0 <= i < ships@.len() ==> (#[trigger] ships@[i]).wf(),
        ensures
            r.wf(),
            forall|c: Cell|
                c.on_board() ==> r.state_at(c) == if exists|i: int|
                    0 <= i < ships@.len() && (#[trigger] ships@[i]).spec_contains(c) {
                    CellState::Occupied
                } else {
                    CellState::Empty
                },
    {
        let mut grid = Grid::default();
        let mut i: usize = 0;
        while i < ships.len()
            invariant
                grid.wf(),
                i <= ships@.len(),
                forall|k: int| 0 <= k < ships@.len() ==> (#[trigger] ships@[k]).wf(),
                forall|c: Cell|
                    c.on_board() ==> grid.state_at(c) == if exists|k: int|
                        0 <= k < i && (#[trigger] ships@[k]).spec_contains(c) {
                        CellState::Occupied
                    } else {
                        CellState::Empty
                    },
            decreases ships@.len() - i,
        {
            let ghost pre = grid;
            grid.add_ship(&ships[i]);
            proof {
                assert forall|c: Cell|
                    c.on_board() implies grid.state_at(c) == (if exists|k: int|
                    0 <= k < i + 1 && (#[trigger] ships@[k]).spec_contains(c) {
                    CellState::Occupied
                } else {
                    CellState::Empty
                }) by {
                    if exists|k: int| 0 <= k < i + 1 && (#[trigger] ships@[k]).spec_contains(c) {
                        let k = choose|k: int|
                            0 <= k < i + 1 && (#[trigger] ships@[k]).spec_contains(c);
                        if k < i {
                            assert(pre.state_at(c) == CellState::Occupied);
                        }
                    }
                }
            }
            i = i + 1;
        }
        grid
    }
}

impl Clone for Grid {
    /// An exact copy: the clone records the same state for every cell.
    fn clone(&self) -> (r: Self)
        ensures
            r.cells@ == self.cells@,
    {
        let mut cells: Vec<CellState> = Vec::new();
        let mut i: usize = 0;
        while i < self.cells.len()
            invariant
                i <= self.cells@.len(),
                cells@.len() == i,
                forall|j: int| 0 <= j < i ==> cells@[j] == self.cells@[j],
            decreases self.cells@.len() - i,
        {
            cells.push(self.cells[i]);
            i = i + 1;
        }
        proof {
            assert(cells@ =~= self.cells@);
        }
        Grid { cells }
    }
}

impl Default for Grid {
    /// A fresh grid with every cell empty.
    fn default() -> (r: Self)
        ensures
            r.wf(),
            r.spec_is_empty(),
    {
        let mut cells: Vec<CellState> = Vec::new();
        let mut i: usize = 0;
        while i < 100
            invariant
                i <= 100,
                cells.len() == i,
                forall|j: int| 0 <= j < i ==> cells[j] == CellState::Empty,
            decreases 100 - i,
        {
            cells.push(CellState::Empty);
            i = i + 1;
        }
        let g = Grid { cells };
        proof {
            assert forall|c: Cell| c.on_board() implies g.state_at(c) == CellState::Empty by {
                assert((c.y as int * 10 + c.x as int) < 100);
            }
        }
        g
    }
}

} // verus!
