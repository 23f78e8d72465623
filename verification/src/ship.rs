//! Ships: the five kinds, their placement on the board and their damage.
//!
//! A [`Ship`] occupies a run of consecutive cells starting at its origin
//! cell and extending along its [`ShipOrientation`].  Damage is tracked in a
//! bitmask with one bit per segment; a set bit means the segment is still
//! intact, and a ship whose mask is zero is sunk.
//!
//! A [`ShipKind`] names one of the five fixed ship identities and is the
//! only way to create a [`Ship`].

use crate::grid::Cell;
use crate::grid::MAX_COORD;
use vstd::prelude::*;
use vstd::string::StringExecFns;

verus! {

/// The orientation of a ship: all its cells share the y coordinate
/// (horizontal) or the x coordinate (vertical).
#[derive(Debug, PartialEq, Clone, Copy, Eq, Hash, Structural)]
pub enum ShipOrientation {
    Horizontal,
    Vertical,
}

impl ShipOrientation {
    /// Returns an orientation chosen at random.
    pub fn random() -> Self {
        if rand::random::<u8>() % 2 == 0 {
            ShipOrientation::Horizontal
        } else {
            ShipOrientation::Vertical
        }
    }
}

/// The five fixed ship identities of the game.
///
/// Use a kind to create a new [`Ship`]; the kind determines the ship's
/// length.
#[derive(Debug, PartialEq, Eq, Clone, Copy, Hash, Structural)]
pub enum ShipKind {
    /// The longest ship in the game, occupying 5 consecutive cells.
    AircraftCarrier,
    /// Occupies 4 consecutive cells.
    Battleship,
    /// Occupies 3 consecutive cells.
    Cruiser,
    /// Occupies 3 consecutive cells, like the Cruiser.
    Submarine,
    /// The shortest ship in the game, occupying 2 consecutive cells.
    Destroyer,
}

impl ShipKind {
    pub const AIRCRAFT_CARRIER_SIZE: u8 = 5;

    pub const BATTLESHIP_SIZE: u8 = 4;

    pub const CRUISER_SIZE: u8 = 3;

    pub const SUBMARINE_SIZE: u8 = 3;

    pub const DESTROYER_SIZE: u8 = 2;

    /// Number of cells a ship of this kind occupies.
    pub open spec fn spec_size(self) -> u8 {
        match self {
            ShipKind::AircraftCarrier => Self::AIRCRAFT_CARRIER_SIZE,
            ShipKind::Battleship => Self::BATTLESHIP_SIZE,
            ShipKind::Cruiser => Self::CRUISER_SIZE,
            ShipKind::Submarine => Self::SUBMARINE_SIZE,
            ShipKind::Destroyer => Self::DESTROYER_SIZE,
        }
    }

    /// Returns the number of cells for this kind of ship.
    pub fn size(&self) -> (r: u8)
        ensures
            r == self.spec_size(),
            2 <= r <= 5,
    {
        match self {
            ShipKind::AircraftCarrier => Self::AIRCRAFT_CARRIER_SIZE,
            ShipKind::Battleship => Self::BATTLESHIP_SIZE,
            ShipKind::Cruiser => Self::CRUISER_SIZE,
            ShipKind::Submarine => Self::SUBMARINE_SIZE,
            ShipKind::Destroyer => Self::DESTROYER_SIZE,
        }
    }

    /// Human-readable name of this kind.
    pub fn name(&self) -> (r: String)
        ensures
            self matches ShipKind::AircraftCarrier ==> r@ == "Aircraft Carrier"@,
            self matches ShipKind::Battleship ==> r@ == "Battleship"@,
            self matches ShipKind::Cruiser ==> r@ == "Cruiser"@,
            self matches ShipKind::Submarine ==> r@ == "Submarine"@,
            self matches ShipKind::Destroyer ==> r@ == "Destroyer"@,
    {
        match self {
            ShipKind::AircraftCarrier => String::from_str("Aircraft Carrier"),
            ShipKind::Battleship => String::from_str("Battleship"),
            ShipKind::Cruiser => String::from_str("Cruiser"),
            ShipKind::Submarine => String::from_str("Submarine"),
            ShipKind::Destroyer => String::from_str("Destroyer"),
        }
    }

    /// Creates a new [`Ship`] of this kind starting from the given cell and
    /// extending along the given orientation.  Returns `None` when the ship
    /// would exceed the board boundaries.
    pub fn ship(&self, first: Cell, orientation: ShipOrientation) -> (r: Option<Ship>)
        ensures
            match r {
                Some(s) => Ship::placement_fits(self.spec_size(), first, orientation) && s == (Ship {
                    first_cell: first,
                    ship_size: self.spec_size(),
                    orientation,
                    state: full_mask(self.spec_size() as int),
                }) && s.wf() && !s.spec_is_sunk(),
                None => !Ship::placement_fits(self.spec_size(), first, orientation),
            },
    {
        Ship::new(self.size(), first, orientation)
    }

    /// Returns a randomly placed ship of this kind: both the starting cell
    /// and the orientation are chosen at random, retrying until the ship
    /// fits within the board.  The retries are capped at a generous
    /// ceiling; should they all fail, the ship is placed at the origin,
    /// horizontally, which always fits.
    pub fn random(&self) -> (s: Ship)
        ensures
            s.wf(),
            s.ship_size == self.spec_size(),
            !s.spec_is_sunk(),
    {
        let mut tries: u32 = 0;
        while tries < 10000
            decreases 10000 - tries,
        {
            let first = Cell::random();
            let orientation = ShipOrientation::random();
            if let Some(ship) = self.ship(first, orientation) {
                return ship;
            }
            tries = tries + 1;
        }
        let fallback: Option<Ship> = self.ship(Cell::bounded(0, 0), ShipOrientation::Horizontal);
        fallback.unwrap()
    }
}

/// Bitmask with the lowest `size` bits set: the damage mask of a fresh ship
/// whose every segment is intact.
pub open spec fn full_mask(size: int) -> u8 {
    if size <= 0 {
        0
    } else if size == 1 {
        1
    } else if size == 2 {
        3
    } else if size == 3 {
        7
    } else if size == 4 {
        15
    } else {
        31
    }
}

/// Damage mask of a fresh ship: one set bit per segment.
fn get_ship_state(size: u8) -> (r: u8)
    requires
        1 <= size <= 5,
    ensures
        r == full_mask(size as int),
{
    match size {
        1 => 1,
        2 => 3,
        3 => 7,
        4 => 15,
        _ => 31,
    }
}

/// A ship deployed on the board.
///
/// The origin cell, length and orientation never change after creation;
/// only the damage mask does, through [`Ship::hit_at`].
#[derive(Debug, PartialEq, Eq, Clone, Copy, Structural)]
pub struct Ship {
    /// The origin: the leftmost (horizontal) or topmost (vertical) cell.
    pub first_cell: Cell,
    /// The number of cells the ship occupies, 2 to 5.
    pub ship_size: u8,
    /// The axis along which the ship extends.
    pub orientation: ShipOrientation,
    /// Damage mask: bit `i` is set while segment `i` is intact.
    pub state: u8,
}

impl Ship {
    /// A placement fits when the whole run of cells lies on the board.
    pub open spec fn placement_fits(size: u8, first: Cell, orientation: ShipOrientation) -> bool {
        first.on_board() && match orientation {
            ShipOrientation::Horizontal => first.x + size - 1 <= MAX_COORD,
            ShipOrientation::Vertical => first.y + size - 1 <= MAX_COORD,
        }
    }

    /// Well-formed ship: a valid length, a footprint on the board and no
    /// damage bits beyond the length.
    pub open spec fn wf(self) -> bool {
        &&& 1 <= self.ship_size <= 5
        &&& Self::placement_fits(self.ship_size, self.first_cell, self.orientation)
        &&& self.state <= full_mask(self.ship_size as int)
    }

    /// The `i`-th cell of the footprint, counting from the origin along the
    /// orientation axis.
    pub open spec fn cell_at(self, i: int) -> Cell {
        match self.orientation {
            ShipOrientation::Horizontal => Cell {
                x: (self.first_cell.x + i) as u8,
                y: self.first_cell.y,
            },
            ShipOrientation::Vertical => Cell {
                x: self.first_cell.x,
                y: (self.first_cell.y + i) as u8,
            },
        }
    }

    /// The cell lies on this ship's footprint.
    pub open spec fn spec_contains(self, c: Cell) -> bool {
        match self.orientation {
            ShipOrientation::Horizontal => c.y == self.first_cell.y && self.first_cell.x <= c.x
                < self.first_cell.x + self.ship_size,
            ShipOrientation::Vertical => c.x == self.first_cell.x && self.first_cell.y <= c.y
                < self.first_cell.y + self.ship_size,
        }
    }

    /// Index of the segment a footprint cell belongs to: its offset from
    /// the origin along the orientation axis.
    pub open spec fn seg_index(self, c: Cell) -> int {
        match self.orientation {
            ShipOrientation::Horizontal => c.x - self.first_cell.x,
            ShipOrientation::Vertical => c.y - self.first_cell.y,
        }
    }

    /// Segment `i` has not been hit yet.
    pub open spec fn seg_intact(self, i: int) -> bool {
        self.state & (1u8 << (i as u8)) != 0
    }

    /// The ship after a shot at the given cell: a shot on the footprint
    /// clears the segment's bit (again, if it was already clear); any other
    /// shot leaves the ship untouched.
    pub open spec fn spec_after_hit(self, c: Cell) -> Ship {
        if self.spec_contains(c) {
            Ship { state: self.state & !(1u8 << (self.seg_index(c) as u8)), ..self }
        } else {
            self
        }
    }

    /// Every segment of the ship has been hit.
    pub open spec fn spec_is_sunk(self) -> bool {
        self.state == 0
    }

    fn new(ship_size: u8, first_cell: Cell, direction: ShipOrientation) -> (r: Option<Self>)
        requires
            1 <= ship_size <= 5,
        ensures
            match r {
                Some(s) => Self::placement_fits(ship_size, first_cell, direction) && s == (Ship {
                    first_cell,
                    ship_size,
                    orientation: direction,
                    state: full_mask(ship_size as int),
                }) && s.wf() && !s.spec_is_sunk(),
                None => !Self::placement_fits(ship_size, first_cell, direction),
            },
    {
        let (long, short): (u8, u8) = match direction {
            ShipOrientation::Horizontal => (first_cell.x(), first_cell.y()),
            ShipOrientation::Vertical => (first_cell.y(), first_cell.x()),
        };

        if long <= MAX_COORD && long + ship_size - 1 <= MAX_COORD && short <= MAX_COORD {
            Some(
                Ship {
                    first_cell,
                    ship_size,
                    orientation: direction,
                    state: get_ship_state(ship_size),
                },
            )
        } else {
            None
        }
    }

    /// Returns all board cells occupied by this ship, in increasing order
    /// along the orientation axis starting from the origin.
    pub fn occupied_cells(&self) -> (r: Vec<Cell>)
        requires
            self.wf(),
        ensures
            r@.len() == self.ship_size,
            forall|i: int| 0 <= i < r@.len() ==> r@[i] == self.cell_at(i),
            forall|i: int| 0 <= i < r@.len() ==> self.spec_contains(#[trigger] r@[i]),
    {
        let mut cells: Vec<Cell> = Vec::new();
        let mut d: u8 = 0;
        while d < self.ship_size
            invariant
                self.wf(),
                d <= self.ship_size,
                cells@.len() == d,
                forall|i: int| 0 <= i < d ==> cells@[i] == self.cell_at(i),
            decreases self.ship_size - d,
        {
            let c: Cell = match self.orientation {
                ShipOrientation::Horizontal => Cell {
                    x: self.first_cell.x() + d,
                    y: self.first_cell.y(),
                },
                ShipOrientation::Vertical => Cell {
                    x: self.first_cell.x(),
                    y: self.first_cell.y() + d,
                },
            };
            cells.push(c);
            d = d + 1;
        }
        proof {
            assert forall|i: int| 0 <= i < cells@.len() implies self.spec_contains(
                cells@[i],
            ) by {
                assert(cells@[i] == self.cell_at(i));
            }
        }
        cells
    }

    /// Is this ship sunk?
    pub fn is_sunk(&self) -> (r: bool)
        ensures
            r == self.spec_is_sunk(),
    {
        self.state == 0
    }

    /// Whether the cell belongs to the ship and, if so, which segment it
    /// is: the index of the cell counted from the origin.
    fn contains(&self, cell: &Cell) -> (r: Option<u8>)
        requires
            self.wf(),
        ensures
            match r {
                Some(i) => self.spec_contains(*cell) && i == self.seg_index(*cell) && i
                    < self.ship_size,
                None => !self.spec_contains(*cell),
            },
    {
        match self.orientation {
            ShipOrientation::Horizontal => {
                if self.first_cell.y() == cell.y() && self.first_cell.x() <= cell.x() && cell.x()
                    < self.first_cell.x() + self.ship_size {
                    Some(cell.x() - self.first_cell.x())
                } else {
                    None
                }
            },
            ShipOrientation::Vertical => {
                if self.first_cell.x() == cell.x() && self.first_cell.y() <= cell.y() && cell.y()
                    < self.first_cell.y() + self.ship_size {
                    Some(cell.y() - self.first_cell.y())
                } else {
                    None
                }
            },
        }
    }

    /// Checks whether the given cell is a part of the ship and records the
    /// hit: the segment's bit is cleared.  Returns whether the cell lies on
    /// the footprint; hitting an already-hit segment returns `true` again
    /// without changing anything.
    pub fn hit_at(&mut self, cell: &Cell) -> (r: bool)
        requires
            old(self).wf(),
        ensures
            final(self).wf(),
            r == old(self).spec_contains(*cell),
            *final(self) == old(self).spec_after_hit(*cell),
    {
        match self.contains(cell) {
            Some(bit) => {
                proof {
                    let st = self.state;
                    let b = bit;
                    let sz = self.ship_size;
                    assert((st & !(1u8 << b)) <= st) by (bit_vector);
                }
                self.state = self.state & !(1u8 << bit);
                true
            },
            None => false,
        }
    }

    /// The one-cell border box around this ship's footprint: every cell of
    /// the footprint plus one cell of margin in every direction, diagonals
    /// included.
    pub open spec fn in_border_box(self, c: Cell) -> bool {
        match self.orientation {
            ShipOrientation::Horizontal => self.first_cell.x - 1 <= c.x <= self.first_cell.x
                + self.ship_size && self.first_cell.y - 1 <= c.y <= self.first_cell.y + 1,
            ShipOrientation::Vertical => self.first_cell.x - 1 <= c.x <= self.first_cell.x + 1
                && self.first_cell.y - 1 <= c.y <= self.first_cell.y + self.ship_size,
        }
    }

    /// The other ship is in the space of this ship: some cell of the other
    /// ship's footprint falls inside this ship's one-cell border box.
    pub open spec fn spec_overlaps(self, other: Ship) -> bool {
        exists|c: Cell| other.spec_contains(c) && self.in_border_box(c)
    }

    /// Whether the other ship is in the space of this ship.
    ///
    /// The space a ship occupies is all the cells that define it, plus a
    /// one-cell border around them.  When the second ship stands on one or
    /// more of those cells, this ship is overlapping with the second.
    pub fn is_overlapping(&self, other: &Ship) -> (r: bool)
        requires
            self.wf(),
            other.wf(),
        ensures
            r == self.spec_overlaps(*other),
    {
        let (x_start, x_end, y_start, y_end): (u8, u8, u8, u8) = match self.orientation {
            ShipOrientation::Horizontal => {
                let x_start: u8 = if self.first_cell.x() > 0 {
                    self.first_cell.x() - 1
                } else {
                    0
                };
                let x_hi: u8 = self.first_cell.x() + self.ship_size;
                let x_end: u8 = if x_hi > MAX_COORD {
                    MAX_COORD
                } else {
                    x_hi
                };
                let y_start: u8 = if self.first_cell.y() > 0 {
                    self.first_cell.y() - 1
                } else {
                    0
                };
                let y_hi: u8 = self.first_cell.y() + 1;
                let y_end: u8 = if y_hi > MAX_COORD {
                    MAX_COORD
                } else {
                    y_hi
                };
                (x_start, x_end, y_start, y_end)
            },
            ShipOrientation::Vertical => {
                let x_start: u8 = if self.first_cell.x() > 0 {
                    self.first_cell.x() - 1
                } else {
                    0
                };
                let x_hi: u8 = self.first_cell.x() + 1;
                let x_end: u8 = if x_hi > MAX_COORD {
                    MAX_COORD
                } else {
                    x_hi
                };
                let y_start: u8 = if self.first_cell.y() > 0 {
                    self.first_cell.y() - 1
                } else {
                    0
                };
                let y_hi: u8 = self.first_cell.y() + self.ship_size;
                let y_end: u8 = if y_hi > MAX_COORD {
                    MAX_COORD
                } else {
                    y_hi
                };
                (x_start, x_end, y_start, y_end)
            },
        };
        proof {
            assert forall|c: Cell| c.on_board() implies (self.in_border_box(c) <==> (x_start <= c.x
                <= x_end && y_start <= c.y <= y_end)) by {}
        }

        let mut x: u8 = x_start;
        while x <= x_end
            invariant
                self.wf(),
                other.wf(),
                x_start <= x <= x_end + 1,
                x_end <= MAX_COORD,
                y_end <= MAX_COORD,
                forall|c: Cell|
                    c.on_board() ==> (self.in_border_box(c) <==> (x_start <= c.x <= x_end && y_start
                        <= c.y <= y_end)),
                forall|c: Cell|
                    x_start <= c.x < x && y_start <= c.y <= y_end ==> !other.spec_contains(c),
            decreases x_end + 1 - x,
        {
            let mut y: u8 = y_start;
            while y <= y_end
                invariant
                    self.wf(),
                    other.wf(),
                    x_start <= x <= x_end,
                    y_start <= y <= y_end + 1,
                    x_end <= MAX_COORD,
                    y_end <= MAX_COORD,
                    forall|c: Cell|
                        c.on_board() ==> (self.in_border_box(c) <==> (x_start <= c.x <= x_end
                            && y_start <= c.y <= y_end)),
                    forall|c: Cell|
                        x_start <= c.x < x && y_start <= c.y <= y_end ==> !other.spec_contains(c),
                    forall|c: Cell| c.x == x && y_start <= c.y < y ==> !other.spec_contains(c),
                decreases y_end + 1 - y,
            {
                let probe = Cell { x, y };
                if other.contains(&probe).is_some() {
                    proof {
                        assert(probe.on_board());
                        assert(x_start <= probe.x <= x_end && y_start <= probe.y <= y_end);
                        assert(self.in_border_box(probe));
                        assert(self.spec_overlaps(*other)) by {
                            assert(other.spec_contains(probe) && self.in_border_box(probe));
                        }
                    }
                    return true;
                }
                y = y + 1;
            }
            x = x + 1;
        }
        proof {
            if self.spec_overlaps(*other) {
                let c = choose|c: Cell| other.spec_contains(c) && self.in_border_box(c);
                lemma_contains_on_board(*other, c);
            }
        }
        false
    }
}

/// A footprint cell of a well-formed ship lies on the board.
pub proof fn lemma_contains_on_board(s: Ship, c: Cell)
    requires
        s.wf(),
        s.spec_contains(c),
    ensures
        c.on_board(),
{
}

/// Checks a set of deployed ships for the one-cell-border rule: no ship may
/// stand inside the bordered space of another.  All pairs are checked.
pub fn validate_ships(ships: &[Ship]) -> (r: Result<(), &'static str>)
    requires
        forall|i: int| 0 <= i < ships@.len() ==> (#[trigger] ships@[i]).wf(),
    ensures
        match r {
            Ok(()) => forall|i: int, j: int|
                0 <= i < j < ships@.len() ==> !ships@[i].spec_overlaps(ships@[j]),
            Err(m) => (exists|i: int, j: int|
                0 <= i < j < ships@.len() && ships@[i].spec_overlaps(ships@[j])) && m@
                == "Ships overlap"@,
        },
{
    let n: usize = ships.len();
    let mut i: usize = 0;
    while i < n
        invariant
            n == ships@.len(),
            i <= n,
            forall|a: int| 0 <= a < n ==> (#[trigger] ships@[a]).wf(),
            forall|a: int, b: int| 0 <= a < b < n && a < i ==> !ships@[a].spec_overlaps(ships@[b]),
        decreases n - i,
    {
        let mut j: usize = i + 1;
        while j < n
            invariant
                n == ships@.len(),
                i < j <= n || (i + 1 == j && j > n),
                i < n,
                forall|a: int| 0 <= a < n ==> (#[trigger] ships@[a]).wf(),
                forall|b: int| i < b < j ==> !ships@[i as int].spec_overlaps(ships@[b]),
            decreases n - j,
        {
            if ships[i].is_overlapping(&ships[j]) {
                return Err("Ships overlap");
            }
            j = j + 1;
        }
        i = i + 1;
    }
    Ok(())
}

/// Cells within one step of each other in every direction (Chebyshev
/// distance at most one); diagonal neighbours count.
pub open spec fn cells_near(a: Cell, b: Cell) -> bool {
    &&& -1 <= a.x - b.x <= 1
    &&& -1 <= a.y - b.y <= 1
}

/// The border box of a ship is exactly the set of cells within one step of
/// some footprint cell.
proof fn lemma_border_box_near(s: Ship, c: Cell)
    requires
        s.wf(),
    ensures
        s.in_border_box(c) <==> exists|i: int|
            0 <= i < s.ship_size && cells_near(s.cell_at(i), c),
{
    if s.in_border_box(c) {
        let x0 = s.first_cell.x as int;
        let y0 = s.first_cell.y as int;
        let along: int = match s.orientation {
            ShipOrientation::Horizontal => c.x - x0,
            ShipOrientation::Vertical => c.y - y0,
        };
        let i: int = if along < 0 {
            0
        } else if along > s.ship_size - 1 {
            s.ship_size - 1
        } else {
            along
        };
        assert(0 <= i < s.ship_size && cells_near(s.cell_at(i), c));
    }
}

/// Each footprint cell is the segment its index names: the footprint is a
/// run of exactly `ship_size` distinct, board-bounded cells, consecutive
/// along the orientation axis.
pub proof fn lemma_footprint_exact(s: Ship)
    requires
        s.wf(),
    ensures
        forall|i: int| 0 <= i < s.ship_size ==> (#[trigger] s.cell_at(i)).on_board(),
        forall|i: int|
            0 <= i < s.ship_size ==> s.spec_contains(#[trigger] s.cell_at(i)) && s.seg_index(
                s.cell_at(i),
            ) == i,
        forall|i: int, j: int|
            0 <= i < s.ship_size && 0 <= j < s.ship_size && i != j ==> s.cell_at(i) != s.cell_at(
                j,
            ),
        forall|c: Cell| s.spec_contains(c) ==> c == s.cell_at(s.seg_index(c)),
{
}

/// Symmetry of the overlap relation: whichever of the two ships the border
/// box is drawn around, the answer is the same.
pub proof fn lemma_overlaps_symmetric(a: Ship, b: Ship)
    requires
        a.wf(),
        b.wf(),
    ensures
        a.spec_overlaps(b) == b.spec_overlaps(a),
{
    lemma_overlaps_iff_near(a, b);
    lemma_overlaps_iff_near(b, a);
    assert((exists|i: int, j: int|
        0 <= i < a.ship_size && 0 <= j < b.ship_size && cells_near(a.cell_at(i), b.cell_at(j)))
        <==> (exists|i: int, j: int|
        0 <= i < b.ship_size && 0 <= j < a.ship_size && cells_near(b.cell_at(i), a.cell_at(j))))
        by {
        if exists|i: int, j: int|
            0 <= i < a.ship_size && 0 <= j < b.ship_size && cells_near(
                a.cell_at(i),
                b.cell_at(j),
            ) {
            let (i, j) = choose|i: int, j: int|
                0 <= i < a.ship_size && 0 <= j < b.ship_size && cells_near(
                    a.cell_at(i),
                    b.cell_at(j),
                );
            assert(cells_near(b.cell_at(j), a.cell_at(i)));
        }
        if exists|i: int, j: int|
            0 <= i < b.ship_size && 0 <= j < a.ship_size && cells_near(
                b.cell_at(i),
                a.cell_at(j),
            ) {
            let (i, j) = choose|i: int, j: int|
                0 <= i < b.ship_size && 0 <= j < a.ship_size && cells_near(
                    b.cell_at(i),
                    a.cell_at(j),
                );
            assert(cells_near(a.cell_at(j), b.cell_at(i)));
        }
    }
}

/// Two ships overlap exactly when some footprint cell of the one is within
/// one step of some footprint cell of the other.
pub proof fn lemma_overlaps_iff_near(a: Ship, b: Ship)
    requires
        a.wf(),
        b.wf(),
    ensures
        a.spec_overlaps(b) <==> exists|i: int, j: int|
            0 <= i < a.ship_size && 0 <= j < b.ship_size && cells_near(a.cell_at(i), b.cell_at(j)),
{
    lemma_footprint_exact(a);
    lemma_footprint_exact(b);
    if a.spec_overlaps(b) {
        let c = choose|c: Cell| b.spec_contains(c) && a.in_border_box(c);
        lemma_border_box_near(a, c);
        let i = choose|i: int| 0 <= i < a.ship_size && cells_near(a.cell_at(i), c);
        let j = b.seg_index(c);
        assert(0 <= i < a.ship_size && 0 <= j < b.ship_size && cells_near(
            a.cell_at(i),
            b.cell_at(j),
        ));
    }
    if exists|i: int, j: int|
        0 <= i < a.ship_size && 0 <= j < b.ship_size && cells_near(a.cell_at(i), b.cell_at(j)) {
        let (i, j) = choose|i: int, j: int|
            0 <= i < a.ship_size && 0 <= j < b.ship_size && cells_near(a.cell_at(i), b.cell_at(j));
        let c = b.cell_at(j);
        lemma_border_box_near(a, c);
        assert(b.spec_contains(c) && a.in_border_box(c));
    }
}

/// A shot at a cell off the footprint never changes the ship.
pub proof fn lemma_hit_off_footprint_unchanged(s: Ship, c: Cell)
    requires
        !s.spec_contains(c),
    ensures
        s.spec_after_hit(c) == s,
{
}

/// Hitting the same cell twice is idempotent: the second shot reports a hit
/// again but leaves the ship exactly as the first shot left it.
pub proof fn lemma_hit_idempotent(s: Ship, c: Cell)
    requires
        s.wf(),
    ensures
        s.spec_after_hit(c).spec_after_hit(c) == s.spec_after_hit(c),
{
    if s.spec_contains(c) {
        let st = s.state;
        let b = s.seg_index(c) as u8;
        assert(((st & !(1u8 << b)) & !(1u8 << b)) == (st & !(1u8 << b))) by (bit_vector);
    }
}

/// A shot preserves well-formedness: geometry is untouched and the damage
/// mask only loses bits.
pub proof fn lemma_hit_preserves_wf(s: Ship, c: Cell)
    requires
        s.wf(),
    ensures
        s.spec_after_hit(c).wf(),
        s.spec_after_hit(c).first_cell == s.first_cell,
        s.spec_after_hit(c).ship_size == s.ship_size,
        s.spec_after_hit(c).orientation == s.orientation,
{
    if s.spec_contains(c) {
        let st = s.state;
        let b = s.seg_index(c) as u8;
        assert((st & !(1u8 << b)) <= st) by (bit_vector);
    }
}

/// The ship after a sequence of shots, applied in order.
pub open spec fn after_hits(s: Ship, cells: Seq<Cell>) -> Ship
    decreases cells.len(),
{
    if cells.len() == 0 {
        s
    } else {
        after_hits(s, cells.drop_last()).spec_after_hit(cells.last())
    }
}

/// The footprint of a ship as the sequence of its cells, origin first.
pub open spec fn footprint_cells(s: Ship) -> Seq<Cell> {
    Seq::new(s.ship_size as nat, |i: int| s.cell_at(i))
}

/// After the shots of `cells`, the first `k` segments are all hit and the
/// geometry is unchanged.
proof fn lemma_hits_clear_prefix(s: Ship, k: int)
    requires
        s.wf(),
        0 <= k <= s.ship_size,
    ensures
        after_hits(s, footprint_cells(s).take(k)).wf(),
        after_hits(s, footprint_cells(s).take(k)).first_cell == s.first_cell,
        after_hits(s, footprint_cells(s).take(k)).ship_size == s.ship_size,
        after_hits(s, footprint_cells(s).take(k)).orientation == s.orientation,
        forall|i: int|
            0 <= i < k ==> !(#[trigger] after_hits(s, footprint_cells(s).take(k)).seg_intact(i)),
    decreases k,
{
    let cells = footprint_cells(s);
    if k == 0 {
        assert(cells.take(0) =~= Seq::<Cell>::empty());
        assert(after_hits(s, cells.take(0)) == s);
    } else {
        lemma_hits_clear_prefix(s, k - 1);
        let prev = after_hits(s, cells.take(k - 1));
        assert(cells.take(k).drop_last() =~= cells.take(k - 1));
        assert(cells.take(k).last() == s.cell_at(k - 1));
        let cur = after_hits(s, cells.take(k));
        assert(cur == prev.spec_after_hit(s.cell_at(k - 1)));
        lemma_footprint_exact(s);
        lemma_footprint_exact(prev);
        assert(s.cell_at(k - 1) == prev.cell_at(k - 1));
        assert(prev.spec_contains(prev.cell_at(k - 1)));
        assert(prev.seg_index(prev.cell_at(k - 1)) == k - 1);
        lemma_hit_preserves_wf(prev, s.cell_at(k - 1));
        let st = prev.state;
        let b = (k - 1) as u8;
        assert(cur.state == st & !(1u8 << b));
        assert forall|i: int| 0 <= i < k implies !(#[trigger] cur.seg_intact(i)) by {
            let a = i as u8;
            if i == k - 1 {
                assert((st & !(1u8 << b)) & (1u8 << b) == 0) by (bit_vector);
            } else {
                assert(!prev.seg_intact(i));
                assert(st & (1u8 << a) == 0 && a != b ==> ((st & !(1u8 << b)) & (1u8 << a) == 0))
                    by (bit_vector);
            }
        }
    }
}

/// A well-formed ship with every segment hit is sunk: the damage mask has
/// no bits beyond the length, so clearing all segment bits clears it
/// entirely.
pub proof fn lemma_all_segments_hit_is_sunk(s: Ship)
    requires
        s.wf(),
        forall|i: int| 0 <= i < s.ship_size ==> !(#[trigger] s.seg_intact(i)),
    ensures
        s.spec_is_sunk(),
{
    let st = s.state;
    assert(!s.seg_intact(0));
    assert(st & (1u8 << 0u8) == 0);
    if s.ship_size >= 2 {
        assert(!s.seg_intact(1));
        assert(st & (1u8 << 1u8) == 0);
    }
    if s.ship_size >= 3 {
        assert(!s.seg_intact(2));
        assert(st & (1u8 << 2u8) == 0);
    }
    if s.ship_size >= 4 {
        assert(!s.seg_intact(3));
        assert(st & (1u8 << 3u8) == 0);
    }
    if s.ship_size >= 5 {
        assert(!s.seg_intact(4));
        assert(st & (1u8 << 4u8) == 0);
    }
    if s.ship_size == 1 {
        assert(st <= 1 && st & (1u8 << 0u8) == 0 ==> st == 0) by (bit_vector);
    } else if s.ship_size == 2 {
        assert(st <= 3 && st & (1u8 << 0u8) == 0 && st & (1u8 << 1u8) == 0 ==> st == 0)
            by (bit_vector);
    } else if s.ship_size == 3 {
        assert(st <= 7 && st & (1u8 << 0u8) == 0 && st & (1u8 << 1u8) == 0 && st & (1u8 << 2u8)
            == 0 ==> st == 0) by (bit_vector);
    } else if s.ship_size == 4 {
        assert(st <= 15 && st & (1u8 << 0u8) == 0 && st & (1u8 << 1u8) == 0 && st & (1u8 << 2u8)
            == 0 && st & (1u8 << 3u8) == 0 ==> st == 0) by (bit_vector);
    } else {
        assert(st <= 31 && st & (1u8 << 0u8) == 0 && st & (1u8 << 1u8) == 0 && st & (1u8 << 2u8)
            == 0 && st & (1u8 << 3u8) == 0 && st & (1u8 << 4u8) == 0 ==> st == 0) by (bit_vector);
    }
}

/// Hitting every occupied cell of a ship exactly once sinks it.
pub proof fn lemma_hitting_every_cell_sinks(s: Ship)
    requires
        s.wf(),
    ensures
        after_hits(s, footprint_cells(s)).spec_is_sunk(),
{
    let size = s.ship_size as int;
    lemma_hits_clear_prefix(s, size);
    assert(footprint_cells(s).take(size) =~= footprint_cells(s));
    lemma_all_segments_hit_is_sunk(after_hits(s, footprint_cells(s)));
}

/// The one-cell-border rule as a law: ships whose footprints keep more than
/// one step of distance everywhere do not overlap, in either direction.
pub proof fn lemma_separated_ships_never_overlap(a: Ship, b: Ship)
    requires
        a.wf(),
        b.wf(),
        forall|i: int, j: int|
            0 <= i < a.ship_size && 0 <= j < b.ship_size ==> !cells_near(
                #[trigger] a.cell_at(i),
                #[trigger] b.cell_at(j),
            ),
    ensures
        !a.spec_overlaps(b),
        !b.spec_overlaps(a),
{
    lemma_overlaps_iff_near(a, b);
    lemma_overlaps_iff_near(b, a);
    assert forall|i: int, j: int|
        0 <= i < b.ship_size && 0 <= j < a.ship_size implies !cells_near(
        b.cell_at(i),
        a.cell_at(j),
    ) by {
        assert(!cells_near(a.cell_at(j), b.cell_at(i)));
    }
}

} // verus!
