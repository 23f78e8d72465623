use naval_battle::fleet::Fleet;
use naval_battle::fleet::FleetError;
use naval_battle::grid::Cell;
use naval_battle::ship::Ship;
use naval_battle::ship::ShipKind;
use naval_battle::ship::ShipOrientation;

// one ship per even row, at the left edge: never any conflict
fn rowwise_builder(kind: ShipKind) -> Ship {
    let row = match kind {
        ShipKind::AircraftCarrier => 0,
        ShipKind::Battleship => 2,
        ShipKind::Cruiser => 4,
        ShipKind::Submarine => 6,
        ShipKind::Destroyer => 8,
    };
    kind.ship(Cell::bounded(0, row), ShipOrientation::Horizontal)
        .unwrap()
}

fn rowwise_placements() -> Vec<(ShipKind, Cell, ShipOrientation)> {
    vec![
        (ShipKind::AircraftCarrier, Cell::bounded(0, 0), ShipOrientation::Horizontal),
        (ShipKind::Battleship, Cell::bounded(0, 2), ShipOrientation::Horizontal),
        (ShipKind::Cruiser, Cell::bounded(0, 4), ShipOrientation::Horizontal),
        (ShipKind::Submarine, Cell::bounded(0, 6), ShipOrientation::Horizontal),
        (ShipKind::Destroyer, Cell::bounded(0, 8), ShipOrientation::Horizontal),
    ]
}

#[test]
fn test_build_from_fixed_builder() {
    let fleet = Fleet::build(rowwise_builder);
    assert_eq!(fleet.ships.len(), 5);
    assert_eq!(fleet.ships[0].ship_size, 5);
    assert_eq!(fleet.ships[1].ship_size, 4);
    assert_eq!(fleet.ships[2].ship_size, 3);
    assert_eq!(fleet.ships[3].ship_size, 3);
    assert_eq!(fleet.ships[4].ship_size, 2);
    for i in 0..5 {
        for j in (i + 1)..5 {
            assert!(!fleet.ships[i].is_overlapping(&fleet.ships[j]));
        }
    }
}

// Fleet composition always yields five pairwise non-overlapping ships, one
// per kind, even from a random, overlap-prone builder.
#[test]
fn test_build_from_random_builder() {
    let fleet = Fleet::build(|kind: ShipKind| kind.random());
    assert_eq!(fleet.ships.len(), 5);
    let sizes: Vec<u8> = fleet.ships.iter().map(|s| s.ship_size).collect();
    assert_eq!(sizes, vec![5, 4, 3, 3, 2]);
    for i in 0..5 {
        for j in (i + 1)..5 {
            assert!(!fleet.ships[i].is_overlapping(&fleet.ships[j]));
            assert!(!fleet.ships[j].is_overlapping(&fleet.ships[i]));
        }
    }
}

#[test]
fn test_new_from_placements() {
    let fleet = Fleet::new(&rowwise_placements()).unwrap();
    assert_eq!(fleet.ships.len(), 5);
    assert_eq!(fleet.get(&ShipKind::Destroyer).first_cell, Cell::bounded(0, 8));
}

#[test]
fn test_new_missing_kind() {
    let mut placements = rowwise_placements();
    placements[3] = (ShipKind::Cruiser, Cell::bounded(0, 6), ShipOrientation::Horizontal);
    assert_eq!(Fleet::new(&placements), Err(FleetError::MissingKind(ShipKind::Submarine)));
}

#[test]
fn test_new_does_not_fit() {
    let mut placements = rowwise_placements();
    placements[0] = (ShipKind::AircraftCarrier, Cell::bounded(6, 0), ShipOrientation::Horizontal);
    assert_eq!(
        Fleet::new(&placements),
        Err(FleetError::DoesNotFit(ShipKind::AircraftCarrier))
    );
}

#[test]
fn test_new_overlapping() {
    let mut placements = rowwise_placements();
    placements[1] = (ShipKind::Battleship, Cell::bounded(0, 1), ShipOrientation::Horizontal);
    assert_eq!(Fleet::new(&placements), Err(FleetError::Overlapping));
}

#[test]
fn test_hit_at_resolves_first_covering_ship() {
    let mut fleet = Fleet::new(&rowwise_placements()).unwrap();
    assert_eq!(fleet.hit_at(&Cell::bounded(0, 0)), Some(ShipKind::AircraftCarrier));
    assert_eq!(fleet.hit_at(&Cell::bounded(1, 8)), Some(ShipKind::Destroyer));
    assert_eq!(fleet.hit_at(&Cell::bounded(9, 9)), None);
}

#[test]
fn test_fleet_is_sunk() {
    let mut fleet = Fleet::new(&rowwise_placements()).unwrap();
    assert!(!fleet.is_sunk());
    for (kind, origin, _) in rowwise_placements() {
        for dx in 0..kind.size() {
            let target = Cell::bounded(origin.x() + dx, origin.y());
            assert_eq!(fleet.hit_at(&target), Some(kind));
        }
    }
    assert!(fleet.is_sunk());
}

#[test]
fn test_get_returns_ship_of_kind() {
    let fleet = Fleet::new(&rowwise_placements()).unwrap();
    assert_eq!(fleet.get(&ShipKind::AircraftCarrier).ship_size, 5);
    assert_eq!(fleet.get(&ShipKind::Battleship).first_cell, Cell::bounded(0, 2));
    assert_eq!(fleet.get(&ShipKind::Cruiser).ship_size, 3);
    assert_eq!(fleet.get(&ShipKind::Submarine).first_cell, Cell::bounded(0, 6));
    assert_eq!(fleet.get(&ShipKind::Destroyer).ship_size, 2);
}
