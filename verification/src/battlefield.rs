//! A self-contained battlefield: five deployed ships plus a record of the
//! shots aimed at them.
//!
//! Unlike [`crate::fleet::Fleet`], which resolves shots for a player pair,
//! a battlefield owns both the ships and the shot record, and reports each
//! shot as a miss, a hit, or the sinking blow.

use crate::fleet::random_ship_of_kind;
use crate::fleet::spec_kind_at;
use crate::fleet::Fleet;
use crate::grid::Cell;
use crate::ship::validate_ships;
use crate::ship::Ship;
use vstd::arithmetic::div_mod::lemma_fundamental_div_mod_converse;
use vstd::prelude::*;
use vstd::string::StringExecFns;

verus! {

/// The character a shot record is drawn with: a blank for an untouched
/// cell, an X for any hit, a dot for a miss.
pub open spec fn shoot_char(s: ShootState) -> char {
    match s {
        ShootState::Untouched => ' ',
        ShootState::Hit => 'X',
        ShootState::Sunk => 'X',
        ShootState::Miss => '.',
    }
}

/// The label digit of a row.
pub open spec fn row_label_char(y: int) -> char {
    if y == 0 {
        '0'
    } else if y == 1 {
        '1'
    } else if y == 2 {
        '2'
    } else if y == 3 {
        '3'
    } else if y == 4 {
        '4'
    } else if y == 5 {
        '5'
    } else if y == 6 {
        '6'
    } else if y == 7 {
        '7'
    } else if y == 8 {
        '8'
    } else {
        '9'
    }
}

/// Outcome of a shot at a battlefield cell, as recorded per cell.
#[derive(Debug, Copy, Clone, PartialEq, Eq, Hash, Structural)]
pub enum ShootState {
    /// No shot has been aimed at the cell yet.
    Untouched,
    /// The shot hit a ship that still floats.
    Hit,
    /// The shot hit only water.
    Miss,
    /// The shot hit a ship and sank it.
    Sunk,
}

/// Five deployed ships and the record of every shot aimed at them.
pub struct Battlefield {
    /// The deployed ships; always exactly five, pairwise non-overlapping.
    pub ships: Vec<Ship>,
    /// Outcome of the shots, one record per board cell, in row-major
    /// order.
    pub battle_shoots: Vec<ShootState>,
}

impl Battlefield {
    /// Five well-formed ships that respect the one-cell-border rule, and
    /// one shot record per board cell.
    pub open spec fn wf(self) -> bool {
        &&& self.ships.len() == 5
        &&& forall|i: int| 0 <= i < 5 ==> (#[trigger] self.ships[i]).wf()
        &&& forall|i: int, j: int| 0 <= i < j < 5 ==> !self.ships[i].spec_overlaps(self.ships[j])
        &&& self.battle_shoots.len() == 100
    }

    /// The recorded outcome for a board cell.
    pub open spec fn shoot_at(self, c: Cell) -> ShootState {
        self.battle_shoots[c.y as int * 10 + c.x as int]
    }

    /// Some ship's footprint covers the cell.
    pub open spec fn spec_covers(self, c: Cell) -> bool {
        exists|i: int| 0 <= i < 5 && (#[trigger] self.ships[i]).spec_contains(c)
    }

    /// Creates a battlefield from five deployed ships, rejecting a
    /// deployment that violates the one-cell-border rule.  All cells start
    /// untouched.
    pub fn new(ships: Vec<Ship>) -> (r: Result<Self, &'static str>)
        requires
            ships@.len() == 5,
            forall|i: int| 0 <= i < 5 ==> (#[trigger] ships@[i]).wf(),
        ensures
            match r {
                Ok(b) => {
                    &&& b.wf()
                    &&& b.ships@ == ships@
                    &&& forall|c: Cell| c.on_board() ==> b.shoot_at(c) == ShootState::Untouched
                },
                Err(m) => (exists|i: int, j: int|
                    0 <= i < j < 5 && ships@[i].spec_overlaps(ships@[j])) && m@
                    == "Ships overlap"@,
            },
    {
        match validate_ships(ships.as_slice()) {
            Err(m) => Err(m),
            Ok(()) => {
                let mut battle_shoots: Vec<ShootState> = Vec::new();
                let mut i: usize = 0;
                while i < 100
                    invariant
                        i <= 100,
                        battle_shoots@.len() == i,
                        forall|j: int| 0 <= j < i ==> battle_shoots@[j] == ShootState::Untouched,
                    decreases 100 - i,
                {
                    battle_shoots.push(ShootState::Untouched);
                    i = i + 1;
                }
                let b = Battlefield { ships, battle_shoots };
                proof {
                    assert forall|c: Cell| c.on_board() implies b.shoot_at(c)
                        == ShootState::Untouched by {
                        assert((c.y as int * 10 + c.x as int) < 100);
                    }
                }
                Ok(b)
            },
        }
    }

    /// Creates a battlefield with a randomized, rule-respecting
    /// deployment: one ship per kind, placed at random and redrawn until
    /// no pair conflicts.
    pub fn random() -> (r: Self)
        ensures
            r.wf(),
            forall|i: int|
                0 <= i < 5 ==> (#[trigger] r.ships[i]).ship_size == spec_kind_at(i).spec_size(),
            forall|i: int| 0 <= i < 5 ==> !(#[trigger] r.ships[i]).spec_is_sunk(),
            forall|c: Cell| c.on_board() ==> r.shoot_at(c) == ShootState::Untouched,
    {
        let fleet = Fleet::build(random_ship_of_kind);
        let mut battle_shoots: Vec<ShootState> = Vec::new();
        let mut i: usize = 0;
        while i < 100
            invariant
                i <= 100,
                battle_shoots@.len() == i,
                forall|j: int| 0 <= j < i ==> battle_shoots@[j] == ShootState::Untouched,
            decreases 100 - i,
        {
            battle_shoots.push(ShootState::Untouched);
            i = i + 1;
        }
        let b = Battlefield { ships: fleet.ships, battle_shoots };
        proof {
            assert forall|c: Cell| c.on_board() implies b.shoot_at(c) == ShootState::Untouched by {
                assert((c.y as int * 10 + c.x as int) < 100);
            }
        }
        b
    }

    /// Resolves a shot at a cell: the first ship covering the cell records
    /// the hit, and the cell's record becomes the outcome — a miss when no
    /// ship covers it, a hit when the struck ship still floats, the
    /// sinking blow when it does not.  The outcome is also returned.
    pub fn check(&mut self, cell: Cell) -> (r: ShootState)
        requires
            old(self).wf(),
            cell.on_board(),
        ensures
            final(self).wf(),
            r != ShootState::Untouched,
            final(self).shoot_at(cell) == r,
            forall|c: Cell|
                c.on_board() && c != cell ==> final(self).shoot_at(c) == old(self).shoot_at(c),
            if old(self).spec_covers(cell) {
                exists|i: int|
                    {
                        &&& 0 <= i < 5
                        &&& (#[trigger] old(self).ships[i]).spec_contains(cell)
                        &&& (forall|j: int| 0 <= j < i ==> !old(self).ships[j].spec_contains(cell))
                        &&& final(self).ships@ == old(self).ships@.update(
                            i,
                            old(self).ships[i].spec_after_hit(cell),
                        )
                        &&& r == if old(self).ships[i].spec_after_hit(cell).spec_is_sunk() {
                            ShootState::Sunk
                        } else {
                            ShootState::Hit
                        }
                    }
            } else {
                final(self).ships@ == old(self).ships@ && r == ShootState::Miss
            },
    {
        let mut outcome: ShootState = ShootState::Miss;
        let mut i: usize = 0;
        let mut struck: bool = false;
        while i < 5 && !struck
            invariant
                old(self).wf(),
                self.battle_shoots == old(self).battle_shoots,
                cell.on_board(),
                i <= 5,
                !struck ==> {
                    &&& self.ships@ == old(self).ships@
                    &&& outcome == ShootState::Miss
                    &&& forall|j: int| 0 <= j < i ==> !(#[trigger] old(self).ships[j]).spec_contains(
                        cell,
                    )
                },
                struck ==> exists|k: int|
                    {
                        &&& 0 <= k < i
                        &&& (#[trigger] old(self).ships[k]).spec_contains(cell)
                        &&& (forall|j: int| 0 <= j < k ==> !old(self).ships[j].spec_contains(cell))
                        &&& self.ships@ == old(self).ships@.update(
                            k,
                            old(self).ships[k].spec_after_hit(cell),
                        )
                        &&& outcome == if old(self).ships[k].spec_after_hit(cell).spec_is_sunk() {
                            ShootState::Sunk
                        } else {
                            ShootState::Hit
                        }
                    },
            decreases 5 - i,
        {
            let mut ship = self.ships[i];
            if ship.hit_at(&cell) {
                let sunk = ship.is_sunk();
                self.ships[i] = ship;
                outcome = if sunk {
                    ShootState::Sunk
                } else {
                    ShootState::Hit
                };
                struck = true;
                proof {
                    let k = i as int;
                    assert(old(self).ships[k].spec_contains(cell));
                    assert(self.ships@ == old(self).ships@.update(
                        k,
                        old(self).ships[k].spec_after_hit(cell),
                    ));
                }
            }
            i = i + 1;
        }

        let idx: usize = cell.y as usize * 10 + cell.x as usize;
        self.battle_shoots[idx] = outcome;
        proof {
            assert forall|c: Cell| c.on_board() && c != cell implies self.shoot_at(c) == old(
                self,
            ).shoot_at(c) by {
                assert(c.y as int * 10 + c.x as int != idx as int);
            }
            assert forall|j: int| 0 <= j < 5 implies (#[trigger] self.ships[j]).wf() by {
                crate::ship::lemma_hit_preserves_wf(old(self).ships[j], cell);
            }
            assert forall|p: int, q: int| 0 <= p < q < 5 implies !self.ships[p].spec_overlaps(
                self.ships[q],
            ) by {
                crate::fleet::lemma_after_hit_same_footprint(old(self).ships[p], cell);
                crate::fleet::lemma_after_hit_same_footprint(old(self).ships[q], cell);
                crate::fleet::lemma_overlap_depends_on_footprint(
                    old(self).ships[p],
                    self.ships[p],
                    old(self).ships[q],
                    self.ships[q],
                );
            }
        }
        outcome
    }

    /// The whole deployment is destroyed: every ship is sunk.
    pub fn is_defeated(&self) -> (r: bool)
        requires
            self.wf(),
        ensures
            r == forall|i: int| 0 <= i < 5 ==> (#[trigger] self.ships[i]).spec_is_sunk(),
    {
        let mut i: usize = 0;
        while i < 5
            invariant
                self.wf(),
                i <= 5,
                forall|j: int| 0 <= j < i ==> (#[trigger] self.ships[j]).spec_is_sunk(),
            decreases 5 - i,
        {
            if !self.ships[i].is_sunk() {
                return false;
            }
            i = i + 1;
        }
        true
    }

    /// Chooses a cell to attack: a random cell no shot has been aimed at
    /// yet.  The random draws are capped; past the cap the first untouched
    /// cell in row-major order is taken.  Were every cell already
    /// attacked, the origin cell comes back; the battlefield itself never
    /// changes.
    pub fn attack(&mut self) -> (r: Cell)
        requires
            old(self).wf(),
        ensures
            *final(self) == *old(self),
            r.on_board(),
            (exists|c: Cell| c.on_board() && old(self).shoot_at(c) == ShootState::Untouched)
                ==> final(self).shoot_at(r) == ShootState::Untouched,
    {
        let mut tries: u32 = 0;
        while tries < 10000
            invariant
                self.wf(),
                *self == *old(self),
            decreases 10000 - tries,
        {
            let cell = Cell::random();
            let idx: usize = cell.y as usize * 10 + cell.x as usize;
            if matches!(self.battle_shoots[idx], ShootState::Untouched) {
                return cell;
            }
            tries = tries + 1;
        }

        let mut idx: u8 = 0;
        while idx < 100
            invariant
                self.wf(),
                *self == *old(self),
                idx <= 100,
                forall|c: Cell|
                    c.on_board() && (c.y as int * 10 + c.x as int) < idx as int ==> self.shoot_at(c)
                        != ShootState::Untouched,
            decreases 100 - idx,
        {
            let cell = Cell { x: idx % 10, y: idx / 10 };
            if matches!(self.battle_shoots[idx as usize], ShootState::Untouched) {
                return cell;
            }
            proof {
                assert forall|c: Cell|
                    c.on_board() && (c.y as int * 10 + c.x as int) < idx as int + 1 implies
                    self.shoot_at(c) != ShootState::Untouched by {
                    if c.y as int * 10 + c.x as int == idx as int {
                        assert(c == cell);
                    }
                }
            }
            idx = idx + 1;
        }
        proof {
            assert forall|c: Cell| c.on_board() implies self.shoot_at(c)
                != ShootState::Untouched by {
                assert((c.y as int * 10 + c.x as int) < 100);
            }
        }
        Cell { x: 0, y: 0 }
    }

    /// The character standing at a position of the rendered shot record:
    /// a header line of column letters, then one line per row, each
    /// holding the row digit, a space, ten two-character cell blocks, and
    /// a newline.
    pub open spec fn display_char(self, p: int) -> char {
        if p < 23 {
            "  A B C D E F G H I J \n"@[p]
        } else {
            let row = (p - 23) / 23;
            let off = (p - 23) % 23;
            if off == 0 {
                row_label_char(row)
            } else if off == 1 {
                ' '
            } else if off == 22 {
                '\n'
            } else if (off - 2) % 2 == 0 {
                shoot_char(self.shoot_at(Cell { x: ((off - 2) / 2) as u8, y: row as u8 }))
            } else {
                ' '
            }
        }
    }

    /// Renders the shot record as text: the header line of column
    /// letters, then one line per row with the row digit and one
    /// two-character block per cell.
    pub fn display(&self) -> (r: String)
        requires
            self.wf(),
        ensures
            r@.len() == 253,
            forall|p: int| 0 <= p < 253 ==> r@[p] == self.display_char(p),
    {
        let mut out: String = String::from_str("  A B C D E F G H I J \n");
        proof {
            reveal_strlit("  A B C D E F G H I J \n");
            assert(out@.len() == 23);
        }
        let mut y: u8 = 0;
        while y < 10
            invariant
                self.wf(),
                y <= 10,
                out@.len() == 23 + 23 * (y as int),
                forall|p: int| 0 <= p < out@.len() ==> out@[p] == self.display_char(p),
            decreases 10 - y,
        {
            let ghost row_base: int = out@.len() as int;
            let label: &'static str = row_label(y);
            out.append(label);
            out.append(" ");
            proof {
                reveal_strlit(" ");
                lemma_fundamental_div_mod_converse(row_base - 23 + 0, 23, y as int, 0);
                lemma_fundamental_div_mod_converse(row_base - 23 + 1, 23, y as int, 1);
                assert(out@[row_base] == self.display_char(row_base));
                assert(out@[row_base + 1] == self.display_char(row_base + 1));
            }

            let mut x: u8 = 0;
            while x < 10
                invariant
                    self.wf(),
                    y < 10,
                    x <= 10,
                    row_base == 23 + 23 * (y as int),
                    out@.len() == row_base + 2 + 2 * (x as int),
                    forall|p: int| 0 <= p < out@.len() ==> out@[p] == self.display_char(p),
                decreases 10 - x,
            {
                let idx: usize = y as usize * 10 + x as usize;
                let block: &'static str = match self.battle_shoots[idx] {
                    ShootState::Untouched => "  ",
                    ShootState::Hit => "X ",
                    ShootState::Sunk => "X ",
                    ShootState::Miss => ". ",
                };
                proof {
                    reveal_strlit("  ");
                    reveal_strlit("X ");
                    reveal_strlit(". ");
                }
                let ghost block_base: int = out@.len() as int;
                out.append(block);
                proof {
                    let cell = Cell { x, y };
                    assert(self.shoot_at(cell) == self.battle_shoots@[idx as int]);
                    assert(block@[0] == shoot_char(self.battle_shoots@[idx as int]));
                    assert(block@[1] == ' ');
                    let off0: int = 2 + 2 * (x as int);
                    lemma_fundamental_div_mod_converse(block_base - 23 + 0, 23, y as int, off0);
                    lemma_fundamental_div_mod_converse(block_base - 23 + 1, 23, y as int, off0 + 1);
                    assert((off0 - 2) % 2 == 0) by {
                        lemma_fundamental_div_mod_converse(off0 - 2, 2, x as int, 0);
                    }
                    assert((off0 + 1 - 2) % 2 == 1) by {
                        lemma_fundamental_div_mod_converse(off0 - 1, 2, x as int, 1);
                    }
                    assert(((off0 - 2) / 2) == x as int) by {
                        lemma_fundamental_div_mod_converse(off0 - 2, 2, x as int, 0);
                    }
                    assert(out@[block_base] == self.display_char(block_base));
                    assert(out@[block_base + 1] == self.display_char(block_base + 1));
                }
                x = x + 1;
            }

            let ghost nl_base: int = out@.len() as int;
            out.append("\n");
            proof {
                reveal_strlit("\n");
                lemma_fundamental_div_mod_converse(nl_base - 23, 23, y as int, 22);
                assert(out@[nl_base] == self.display_char(nl_base));
            }
            y = y + 1;
        }
        out
    }
}

/// One row label digit as text.
fn row_label(y: u8) -> (r: &'static str)
    requires
        y <= 9,
    ensures
        r@.len() == 1,
        r@[0] == row_label_char(y as int),
{
    proof {
        reveal_strlit("0");
        reveal_strlit("1");
        reveal_strlit("2");
        reveal_strlit("3");
        reveal_strlit("4");
        reveal_strlit("5");
        reveal_strlit("6");
        reveal_strlit("7");
        reveal_strlit("8");
        reveal_strlit("9");
    }
    match y {
        0 => "0",
        1 => "1",
        2 => "2",
        3 => "3",
        4 => "4",
        5 => "5",
        6 => "6",
        7 => "7",
        8 => "8",
        _ => "9",
    }
}

} // verus!
