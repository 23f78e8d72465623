//! Fleets: the fixed set of five ships, one per kind, owned by one player.
//!
//! A [`Fleet`] always holds exactly five ships in the canonical kind order
//! (Aircraft Carrier, Battleship, Cruiser, Submarine, Destroyer), each of
//! its kind's length, and no two of them overlap under the one-cell-border
//! rule.  The composition never changes after construction; only the
//! ships' damage masks do.

use crate::grid::Cell;
use crate::ship::full_mask;
use crate::ship::lemma_separated_ships_never_overlap;
use crate::ship::Ship;
use crate::ship::ShipKind;
use crate::ship::ShipOrientation;
use vstd::prelude::*;

verus! {

/// Position of a kind in the canonical fleet order.
pub open spec fn spec_kind_index(k: ShipKind) -> int {
    match k {
        ShipKind::AircraftCarrier => 0,
        ShipKind::Battleship => 1,
        ShipKind::Cruiser => 2,
        ShipKind::Submarine => 3,
        ShipKind::Destroyer => 4,
    }
}

/// Kind standing at a position of the canonical fleet order.
pub open spec fn spec_kind_at(i: int) -> ShipKind {
    if i == 0 {
        ShipKind::AircraftCarrier
    } else if i == 1 {
        ShipKind::Battleship
    } else if i == 2 {
        ShipKind::Cruiser
    } else if i == 3 {
        ShipKind::Submarine
    } else {
        ShipKind::Destroyer
    }
}

/// The five kinds in canonical fleet order.
pub fn kind_order() -> (r: Vec<ShipKind>)
    ensures
        r@.len() == 5,
        forall|i: int| 0 <= i < 5 ==> r@[i] == spec_kind_at(i),
{
    let mut kinds: Vec<ShipKind> = Vec::new();
    kinds.push(ShipKind::AircraftCarrier);
    kinds.push(ShipKind::Battleship);
    kinds.push(ShipKind::Cruiser);
    kinds.push(ShipKind::Submarine);
    kinds.push(ShipKind::Destroyer);
    kinds
}

/// Why a fleet could not be composed from explicit placements.
#[derive(Debug, PartialEq, Eq, Clone, Copy, Structural)]
pub enum FleetError {
    /// No placement names this kind.
    MissingKind(ShipKind),
    /// The placement for this kind exceeds the board boundaries.
    DoesNotFit(ShipKind),
    /// Two placed ships violate the one-cell-border rule.
    Overlapping,
}

/// The fresh ship a placement describes: full damage mask, geometry as
/// given.
pub open spec fn placed_ship(p: (ShipKind, Cell, ShipOrientation)) -> Ship {
    Ship {
        first_cell: p.1,
        ship_size: p.0.spec_size(),
        orientation: p.2,
        state: full_mask(p.0.spec_size() as int),
    }
}

/// An ordered collection of exactly five ships, one of each kind, indexed
/// by kind.
#[derive(Debug, PartialEq, Eq, Clone)]
pub struct Fleet {
    /// The ships in canonical kind order; always exactly five.
    pub ships: Vec<Ship>,
}

impl Fleet {
    /// The fleet invariant: five well-formed ships, one per kind in
    /// canonical order, pairwise non-overlapping under the one-cell-border
    /// rule.
    pub open spec fn wf(self) -> bool {
        &&& self.ships.len() == 5
        &&& forall|i: int|
            0 <= i < 5 ==> (#[trigger] self.ships[i]).wf() && self.ships[i].ship_size
                == spec_kind_at(i).spec_size()
        &&& forall|i: int, j: int|
            0 <= i < j < 5 ==> !self.ships[i].spec_overlaps(self.ships[j])
    }

    /// The ship of a kind.
    pub open spec fn spec_get(self, k: ShipKind) -> Ship {
        self.ships[spec_kind_index(k)]
    }

    /// Every ship of the fleet is sunk.
    pub open spec fn spec_is_sunk(self) -> bool {
        forall|i: int| 0 <= i < 5 ==> (#[trigger] self.ships[i]).spec_is_sunk()
    }

    /// Some ship's footprint covers the cell.
    pub open spec fn spec_covers(self, c: Cell) -> bool {
        exists|i: int| 0 <= i < 5 && (#[trigger] self.ships[i]).spec_contains(c)
    }

    /// The fleet is exactly the deterministic last-resort deployment:
    /// every ship fresh and horizontal, at the left edge, one kind per
    /// even row.
    pub open spec fn spec_is_fallback_deployment(self) -> bool {
        &&& self.ships.len() == 5
        &&& forall|i: int|
            0 <= i < 5 ==> (#[trigger] self.ships[i]) == (Ship {
                first_cell: Cell { x: 0, y: (2 * i) as u8 },
                ship_size: spec_kind_at(i).spec_size(),
                orientation: ShipOrientation::Horizontal,
                state: full_mask(spec_kind_at(i).spec_size() as int),
            })
    }

    /// A deterministic non-overlapping deployment: every ship horizontal,
    /// at the left edge, one kind per even row.  Serves as the last resort
    /// when randomized composition keeps producing conflicts.
    fn fallback() -> (r: Fleet)
        ensures
            r.wf(),
            forall|i: int| 0 <= i < 5 ==> !(#[trigger] r.ships[i]).spec_is_sunk(),
            r.spec_is_fallback_deployment(),
    {
        let kinds = kind_order();
        let mut ships: Vec<Ship> = Vec::new();
        let mut i: usize = 0;
        while i < 5
            invariant
                kinds@.len() == 5,
                forall|k: int| 0 <= k < 5 ==> kinds@[k] == spec_kind_at(k),
                i <= 5,
                ships@.len() == i,
                forall|k: int|
                    0 <= k < i ==> (#[trigger] ships@[k]).wf() && !ships@[k].spec_is_sunk() && (
                    ships@[k]) == (Ship {
                        first_cell: Cell { x: 0, y: (2 * k) as u8 },
                        ship_size: spec_kind_at(k).spec_size(),
                        orientation: ShipOrientation::Horizontal,
                        state: full_mask(spec_kind_at(k).spec_size() as int),
                    }),
            decreases 5 - i,
        {
            let row: u8 = 2 * (i as u8);
            let ship = kinds[i].ship(Cell { x: 0, y: row }, ShipOrientation::Horizontal);
            ships.push(ship.unwrap());
            i = i + 1;
        }
        let fleet = Fleet { ships };
        proof {
            assert forall|a: int, b: int| 0 <= a < b < 5 implies !fleet.ships[a].spec_overlaps(
                fleet.ships[b],
            ) by {
                let sa = fleet.ships[a];
                let sb = fleet.ships[b];
                assert forall|p: int, q: int|
                    0 <= p < sa.ship_size && 0 <= q < sb.ship_size implies !crate::ship::cells_near(
                    #[trigger] sa.cell_at(p),
                    #[trigger] sb.cell_at(q),
                ) by {
                    assert(sa.cell_at(p).y == 2 * a);
                    assert(sb.cell_at(q).y == 2 * b);
                }
                lemma_separated_ships_never_overlap(sa, sb);
            }
        }
        fleet
    }

    /// Composes a fleet by calling the given per-kind builder, in canonical
    /// kind order, retrying a kind whenever the returned ship overlaps one
    /// already accepted.  The builder must always return a well-formed ship
    /// of the requested kind; it is free to return overlap-prone
    /// placements, which are simply rejected and drawn again.
    ///
    /// The per-kind retries are capped at a generous ceiling; should a kind
    /// keep conflicting past the cap, the whole fleet is replaced by a
    /// fixed deterministic deployment, so composition always succeeds.
    pub fn build<F: Fn(ShipKind) -> Ship>(builder: F) -> (r: Fleet)
        requires
            forall|k: ShipKind| call_requires(builder, (k,)),
            forall|k: ShipKind, s: Ship|
                #[trigger] call_ensures(builder, (k,), s) ==> s.wf() && s.ship_size
                    == k.spec_size(),
        ensures
            r.wf(),
            (forall|k: ShipKind, s: Ship| call_ensures(builder, (k,), s) ==> !s.spec_is_sunk())
                ==> forall|i: int| 0 <= i < 5 ==> !(#[trigger] r.ships[i]).spec_is_sunk(),
            (forall|i: int|
                0 <= i < 5 ==> call_ensures(builder, (spec_kind_at(i),), #[trigger] r.ships[i]))
                || r.spec_is_fallback_deployment(),
    {
        let kinds = kind_order();
        let mut ships: Vec<Ship> = Vec::new();
        let mut i: usize = 0;
        while i < 5
            invariant
                kinds@.len() == 5,
                forall|k: int| 0 <= k < 5 ==> kinds@[k] == spec_kind_at(k),
                i <= 5,
                ships@.len() == i,
                forall|k: ShipKind| call_requires(builder, (k,)),
                forall|k: ShipKind, s: Ship|
                    #[trigger] call_ensures(builder, (k,), s) ==> s.wf() && s.ship_size
                        == k.spec_size(),
                forall|k: int|
                    0 <= k < i ==> (#[trigger] ships@[k]).wf() && ships@[k].ship_size
                        == spec_kind_at(k).spec_size(),
                (forall|k: ShipKind, s: Ship| call_ensures(builder, (k,), s) ==> !s.spec_is_sunk())
                    ==> forall|k: int| 0 <= k < i ==> !(#[trigger] ships@[k]).spec_is_sunk(),
                forall|k: int|
                    0 <= k < i ==> call_ensures(builder, (spec_kind_at(k),), #[trigger] ships@[k]),
                forall|a: int, b: int| 0 <= a < b < i ==> !ships@[a].spec_overlaps(ships@[b]),
            decreases 5 - i,
        {
            let kind = kinds[i];
            let mut tries: u32 = 0;
            let mut placed: bool = false;
            while tries < 10000 && !placed
                invariant
                    kinds@.len() == 5,
                    forall|k: int| 0 <= k < 5 ==> kinds@[k] == spec_kind_at(k),
                    i < 5,
                    kind == spec_kind_at(i as int),
                    forall|k: ShipKind| call_requires(builder, (k,)),
                    forall|k: ShipKind, s: Ship|
                        #[trigger] call_ensures(builder, (k,), s) ==> s.wf() && s.ship_size
                            == k.spec_size(),
                    !placed ==> ships@.len() == i,
                    placed ==> ships@.len() == i + 1,
                    forall|k: int|
                        0 <= k < ships@.len() ==> (#[trigger] ships@[k]).wf()
                            && ships@[k].ship_size == spec_kind_at(k).spec_size(),
                    (forall|k: ShipKind, s: Ship|
                        call_ensures(builder, (k,), s) ==> !s.spec_is_sunk()) ==> forall|k: int|
                        0 <= k < ships@.len() ==> !(#[trigger] ships@[k]).spec_is_sunk(),
                    forall|k: int|
                        0 <= k < ships@.len() ==> call_ensures(
                            builder,
                            (spec_kind_at(k),),
                            #[trigger] ships@[k],
                        ),
                    forall|a: int, b: int|
                        0 <= a < b < ships@.len() ==> !ships@[a].spec_overlaps(ships@[b]),
                decreases 10000 - tries,
            {
                let candidate = builder(kind);
                let mut conflict: bool = false;
                let mut j: usize = 0;
                while j < ships.len()
                    invariant
                        candidate.wf(),
                        j <= ships@.len(),
                        forall|k: int| 0 <= k < ships@.len() ==> (#[trigger] ships@[k]).wf(),
                        !conflict ==> forall|k: int|
                            0 <= k < j ==> !(#[trigger] ships@[k]).spec_overlaps(candidate),
                    decreases ships@.len() - j,
                {
                    if ships[j].is_overlapping(&candidate) {
                        conflict = true;
                    }
                    j = j + 1;
                }
                if !conflict {
                    ships.push(candidate);
                    placed = true;
                }
                tries = tries + 1;
            }
            if !placed {
                return Self::fallback();
            }
            i = i + 1;
        }
        Fleet { ships }
    }

    /// Composes a fleet from five explicit placements, one per kind.
    /// Rejects a composition with a missing kind, a ship that exceeds the
    /// board (naming the kind), or a pair of ships that violate the
    /// one-cell-border rule.
    pub fn new(placements: &Vec<(ShipKind, Cell, ShipOrientation)>) -> (r: Result<
        Fleet,
        FleetError,
    >)
        ensures
            match r {
                Ok(f) => {
                    &&& f.wf()
                    &&& forall|i: int|
                        0 <= i < 5 ==> exists|e: int|
                            0 <= e < placements@.len() && placements@[e].0 == spec_kind_at(i) && (
                            #[trigger] f.ships[i]) == placed_ship(placements@[e])
                },
                Err(FleetError::MissingKind(k)) => forall|e: int|
                    0 <= e < placements@.len() ==> (#[trigger] placements@[e]).0 != k,
                Err(FleetError::DoesNotFit(k)) => exists|e: int|
                    0 <= e < placements@.len() && (#[trigger] placements@[e]).0 == k
                        && !Ship::placement_fits(k.spec_size(), placements@[e].1, placements@[e].2),
                Err(FleetError::Overlapping) => exists|a: int, b: int, ea: int, eb: int|
                    0 <= a < b < 5 && 0 <= ea < placements@.len() && 0 <= eb < placements@.len()
                        && placements@[ea].0 == spec_kind_at(a) && placements@[eb].0 == spec_kind_at(
                        b,
                    ) && placed_ship(placements@[ea]).spec_overlaps(placed_ship(placements@[eb])),
            },
    {
        let kinds = kind_order();
        let mut ships: Vec<Ship> = Vec::new();
        let mut i: usize = 0;
        while i < 5
            invariant
                kinds@.len() == 5,
                forall|k: int| 0 <= k < 5 ==> kinds@[k] == spec_kind_at(k),
                i <= 5,
                ships@.len() == i,
                forall|k: int|
                    0 <= k < i ==> exists|e: int|
                        0 <= e < placements@.len() && placements@[e].0 == spec_kind_at(k) && (
                        #[trigger] ships@[k]) == placed_ship(placements@[e]),
                forall|k: int|
                    0 <= k < i ==> (#[trigger] ships@[k]).wf() && ships@[k].ship_size
                        == spec_kind_at(k).spec_size(),
            decreases 5 - i,
        {
            let kind = kinds[i];
            match find_placement(placements, kind) {
                None => {
                    return Err(FleetError::MissingKind(kind));
                },
                Some((first, orientation)) => {
                    match kind.ship(first, orientation) {
                        None => {
                            return Err(FleetError::DoesNotFit(kind));
                        },
                        Some(ship) => {
                            ships.push(ship);
                        },
                    }
                },
            }
            i = i + 1;
        }

        let mut a: usize = 0;
        while a < 5
            invariant
                ships@.len() == 5,
                forall|k: int|
                    0 <= k < 5 ==> exists|e: int|
                        0 <= e < placements@.len() && placements@[e].0 == spec_kind_at(k) && (
                        #[trigger] ships@[k]) == placed_ship(placements@[e]),
                forall|k: int|
                    0 <= k < 5 ==> (#[trigger] ships@[k]).wf() && ships@[k].ship_size
                        == spec_kind_at(k).spec_size(),
                a <= 5,
                forall|p: int, q: int| 0 <= p < q < 5 && p < a ==> !ships@[p].spec_overlaps(
                    ships@[q],
                ),
            decreases 5 - a,
        {
            let mut b: usize = a + 1;
            while b < 5
                invariant
                    ships@.len() == 5,
                    forall|k: int|
                        0 <= k < 5 ==> exists|e: int|
                            0 <= e < placements@.len() && placements@[e].0 == spec_kind_at(k) && (
                            #[trigger] ships@[k]) == placed_ship(placements@[e]),
                    forall|k: int|
                        0 <= k < 5 ==> (#[trigger] ships@[k]).wf() && ships@[k].ship_size
                            == spec_kind_at(k).spec_size(),
                    a < b <= 5,
                    a < 5,
                    forall|q: int| a < q < b ==> !ships@[a as int].spec_overlaps(ships@[q]),
                decreases 5 - b,
            {
                if ships[a].is_overlapping(&ships[b]) {
                    return Err(FleetError::Overlapping);
                }
                b = b + 1;
            }
            a = a + 1;
        }
        Ok(Fleet { ships })
    }

    /// Resolves a shot at a cell against the fleet: the first ship in
    /// canonical order whose footprint covers the cell records the hit and
    /// its kind is returned; a shot covering no ship returns `None` and
    /// changes nothing.
    pub fn hit_at(&mut self, cell: &Cell) -> (r: Option<ShipKind>)
        requires
            old(self).wf(),
        ensures
            final(self).wf(),
            match r {
                Some(k) => {
                    let i = spec_kind_index(k);
                    &&& old(self).ships[i].spec_contains(*cell)
                    &&& forall|j: int| 0 <= j < i ==> !old(self).ships[j].spec_contains(*cell)
                    &&& final(self).ships@ == old(self).ships@.update(
                        i,
                        old(self).ships[i].spec_after_hit(*cell),
                    )
                },
                None => *final(self) == *old(self) && forall|i: int|
                    0 <= i < 5 ==> !(#[trigger] old(self).ships[i]).spec_contains(*cell),
            },
    {
        let kinds = kind_order();
        let mut i: usize = 0;
        while i < 5
            invariant
                old(self).wf(),
                self == old(self),
                kinds@.len() == 5,
                forall|k: int| 0 <= k < 5 ==> kinds@[k] == spec_kind_at(k),
                i <= 5,
                forall|j: int| 0 <= j < i ==> !(#[trigger] old(self).ships[j]).spec_contains(
                    *cell,
                ),
            decreases 5 - i,
        {
            let mut ship = self.ships[i];
            if ship.hit_at(cell) {
                let ghost pre = self.ships@;
                self.ships[i] = ship;
                proof {
                    assert(spec_kind_index(kinds@[i as int]) == i as int);
                    assert(self.ships@ == pre.update(
                        i as int,
                        old(self).ships[i as int].spec_after_hit(*cell),
                    ));
                    assert forall|j: int| 0 <= j < 5 implies (#[trigger] self.ships[j]).wf()
                        && self.ships[j].ship_size == spec_kind_at(j).spec_size() by {
                        if j == i as int {
                            crate::ship::lemma_hit_preserves_wf(old(self).ships[j], *cell);
                        }
                    }
                    assert forall|p: int, q: int| 0 <= p < q < 5 implies !self.ships[
                        p
                    ].spec_overlaps(self.ships[q]) by {
                        lemma_after_hit_same_footprint(old(self).ships[p], *cell);
                        lemma_after_hit_same_footprint(old(self).ships[q], *cell);
                        lemma_overlap_depends_on_footprint(
                            old(self).ships[p],
                            self.ships[p],
                            old(self).ships[q],
                            self.ships[q],
                        );
                    }
                }
                return Some(kinds[i]);
            }
            i = i + 1;
        }
        None
    }

    /// The whole fleet is destroyed: every ship is sunk.
    pub fn is_sunk(&self) -> (r: bool)
        requires
            self.wf(),
        ensures
            r == self.spec_is_sunk(),
    {
        let mut i: usize = 0;
        while i < 5
            invariant
                self.wf(),
                i <= 5,
                forall|j: int| 0 <= j < i ==> (#[trigger] self.ships[j]).spec_is_sunk(),
            decreases 5 - i,
        {
            if !self.ships[i].is_sunk() {
                return false;
            }
            i = i + 1;
        }
        true
    }

    /// The ship of the given kind.
    pub fn get(&self, kind: &ShipKind) -> (r: &Ship)
        requires
            self.wf(),
        ensures
            *r == self.spec_get(*kind),
    {
        let i: usize = match kind {
            ShipKind::AircraftCarrier => 0,
            ShipKind::Battleship => 1,
            ShipKind::Cruiser => 2,
            ShipKind::Submarine => 3,
            ShipKind::Destroyer => 4,
        };
        &self.ships[i]
    }
}

/// A per-kind fleet builder for the computer opponents: a randomly placed
/// ship of the requested kind.
pub fn random_ship_of_kind(kind: ShipKind) -> (s: Ship)
    ensures
        s.wf(),
        s.ship_size == kind.spec_size(),
        !s.spec_is_sunk(),
{
    kind.random()
}

/// What one resolved shot at `m` does to a fleet: either exactly the first
/// ship (in canonical order) whose footprint covers `m` records the hit,
/// or no ship covers `m` and the fleet is unchanged.
pub open spec fn spec_shot_outcome(pre: Fleet, post: Fleet, m: Cell) -> bool {
    ||| (exists|i: int|
        0 <= i < 5 && (#[trigger] pre.ships[i]).spec_contains(m) && (forall|j: int|
            0 <= j < i ==> !pre.ships[j].spec_contains(m)) && post.ships@ == pre.ships@.update(
            i,
            pre.ships[i].spec_after_hit(m),
        ))
    ||| (post == pre && forall|i: int| 0 <= i < 5 ==> !(#[trigger] pre.ships[i]).spec_contains(m))
}

/// Looks up a placement for a kind, if any names it.
fn find_placement(placements: &Vec<(ShipKind, Cell, ShipOrientation)>, kind: ShipKind) -> (r:
    Option<(Cell, ShipOrientation)>)
    ensures
        match r {
            Some(p) => exists|e: int|
                0 <= e < placements@.len() && (#[trigger] placements@[e]).0 == kind
                    && placements@[e].1 == p.0 && placements@[e].2 == p.1,
            None => forall|e: int| 0 <= e < placements@.len() ==> (#[trigger] placements@[e]).0
                != kind,
        },
{
    let mut e: usize = 0;
    while e < placements.len()
        invariant
            e <= placements@.len(),
            forall|q: int| 0 <= q < e ==> (#[trigger] placements@[q]).0 != kind,
        decreases placements@.len() - e,
    {
        let entry = placements[e];
        if entry.0 == kind {
            return Some((entry.1, entry.2));
        }
        e = e + 1;
    }
    None
}

/// A shot never moves a ship: footprint and geometry survive any hit.
pub(crate) proof fn lemma_after_hit_same_footprint(s: Ship, c: Cell)
    ensures
        s.spec_after_hit(c).first_cell == s.first_cell,
        s.spec_after_hit(c).ship_size == s.ship_size,
        s.spec_after_hit(c).orientation == s.orientation,
        forall|d: Cell| s.spec_after_hit(c).spec_contains(d) == s.spec_contains(d),
        forall|d: Cell| s.spec_after_hit(c).in_border_box(d) == s.in_border_box(d),
{
}

/// Overlap only looks at geometry: ships with the same footprints overlap
/// alike, whatever their damage masks.
pub(crate) proof fn lemma_overlap_depends_on_footprint(a1: Ship, a2: Ship, b1: Ship, b2: Ship)
    requires
        a1.first_cell == a2.first_cell,
        a1.ship_size == a2.ship_size,
        a1.orientation == a2.orientation,
        b1.first_cell == b2.first_cell,
        b1.ship_size == b2.ship_size,
        b1.orientation == b2.orientation,
    ensures
        a1.spec_overlaps(b1) == a2.spec_overlaps(b2),
{
    assert forall|c: Cell| b1.spec_contains(c) == b2.spec_contains(c) by {}
    assert forall|c: Cell| a1.in_border_box(c) == a2.in_border_box(c) by {}
    if a1.spec_overlaps(b1) {
        let c = choose|c: Cell| b1.spec_contains(c) && a1.in_border_box(c);
        assert(b2.spec_contains(c) && a2.in_border_box(c));
    }
    if a2.spec_overlaps(b2) {
        let c = choose|c: Cell| b2.spec_contains(c) && a2.in_border_box(c);
        assert(b1.spec_contains(c) && a1.in_border_box(c));
    }
}

} // verus!
