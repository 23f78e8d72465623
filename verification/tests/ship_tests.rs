use naval_battle::grid::Cell;
use naval_battle::ship::Ship;
use naval_battle::ship::ShipKind;
use naval_battle::ship::ShipOrientation;
use naval_battle::ship::validate_ships;

fn carrier_at(x: u8, y: u8, direction: ShipOrientation) -> Option<Ship> {
    ShipKind::AircraftCarrier.ship(Cell::bounded(x, y), direction)
}

#[test]
fn test_build_carrier() {
    let cases: Vec<(u8, u8, ShipOrientation, bool)> = vec![
        (0, 0, ShipOrientation::Horizontal, true),
        (5, 0, ShipOrientation::Horizontal, true),
        (0, 5, ShipOrientation::Horizontal, true),
        (0, 5, ShipOrientation::Vertical, true),
        (5, 5, ShipOrientation::Horizontal, true),
        (5, 5, ShipOrientation::Vertical, true),
        (1, 1, ShipOrientation::Horizontal, true),
        (6, 1, ShipOrientation::Horizontal, false),
        (1, 6, ShipOrientation::Vertical, false),
        (1, 9, ShipOrientation::Vertical, false),
        (6, 6, ShipOrientation::Horizontal, false),
        (10, 10, ShipOrientation::Horizontal, false),
    ];
    for (x, y, direction, expected) in cases {
        let ship = carrier_at(x, y, direction);
        if expected {
            assert!(ship.is_some());
            let ship = ship.unwrap();
            assert_eq!(ship.ship_size, 5);
            assert_eq!(ship.orientation, direction);
            assert_eq!(ship.state, 0x1f);
            assert_eq!(ship.first_cell, Cell::bounded(x, y));
        } else {
            assert!(ship.is_none());
        }
    }
}

#[test]
fn test_build_battleship() {
    let ship = ShipKind::Battleship
        .ship(Cell::bounded(0, 0), ShipOrientation::Horizontal)
        .unwrap();
    assert_eq!(ship.ship_size, 4);
    assert_eq!(ship.state, 0x0f);
}

#[test]
fn test_build_cruiser() {
    let ship = ShipKind::Cruiser
        .ship(Cell::bounded(0, 0), ShipOrientation::Horizontal)
        .unwrap();
    assert_eq!(ship.ship_size, 3);
    assert_eq!(ship.state, 0x07);
}

#[test]
fn test_build_submarine() {
    let ship = ShipKind::Submarine
        .ship(Cell::bounded(0, 0), ShipOrientation::Horizontal)
        .unwrap();
    assert_eq!(ship.ship_size, 3);
    assert_eq!(ship.state, 0x07);
}

#[test]
fn test_build_destroyer() {
    let ship = ShipKind::Destroyer
        .ship(Cell::bounded(0, 0), ShipOrientation::Horizontal)
        .unwrap();
    assert_eq!(ship.ship_size, 2);
    assert_eq!(ship.state, 0x03);
}

#[test]
fn test_check_hit_horizonal_origin() {
    let cases: Vec<(u8, u8, bool)> = vec![
        (0, 0, true),
        (2, 0, true),
        (4, 0, true),
        (5, 0, false),
        (9, 0, false),
        (0, 1, false),
        (4, 1, false),
        (0, 9, false),
    ];
    for (x, y, expected) in cases {
        let mut ship = carrier_at(0, 0, ShipOrientation::Horizontal).unwrap();
        assert_eq!(ship.hit_at(&Cell::bounded(x, y)), expected);
    }
}

#[test]
fn test_check_hit_horizonal_middle() {
    let cases: Vec<(u8, u8, bool)> = vec![
        (0, 0, false),
        (2, 5, false),
        (4, 5, false),
        (5, 4, false),
        (7, 4, false),
        (9, 4, false),
        (5, 5, true),
        (7, 5, true),
        (9, 5, true),
        (5, 6, false),
        (7, 6, false),
        (9, 6, false),
        (0, 1, false),
        (4, 1, false),
        (0, 9, false),
    ];
    for (x, y, expected) in cases {
        let mut ship = carrier_at(5, 5, ShipOrientation::Horizontal).unwrap();
        assert_eq!(ship.hit_at(&Cell::bounded(x, y)), expected);
    }
}

#[test]
fn test_check_hit_vertical_origin() {
    let cases: Vec<(u8, u8, bool)> = vec![
        (0, 0, true),
        (0, 2, true),
        (0, 4, true),
        (0, 5, false),
        (0, 9, false),
        (1, 0, false),
        (1, 4, false),
        (9, 0, false),
    ];
    for (x, y, expected) in cases {
        let mut ship = carrier_at(0, 0, ShipOrientation::Vertical).unwrap();
        assert_eq!(ship.hit_at(&Cell::bounded(x, y)), expected);
    }
}

#[test]
fn test_check_hit_change_state() {
    let mut ship = carrier_at(0, 0, ShipOrientation::Horizontal).unwrap();
    ship.hit_at(&Cell::bounded(0, 0));
    assert_eq!(ship.state, 0x1e);
    ship.hit_at(&Cell::bounded(5, 0));
    assert_eq!(ship.state, 0x1e);
    ship.hit_at(&Cell::bounded(4, 0));
    assert_eq!(ship.state, 0x0e);
}

#[test]
fn test_is_sunk() {
    let mut ship = carrier_at(0, 0, ShipOrientation::Horizontal).unwrap();
    assert!(!ship.is_sunk());
    ship.hit_at(&Cell::bounded(0, 0));
    assert!(!ship.is_sunk());
    ship.hit_at(&Cell::bounded(1, 0));
    assert!(!ship.is_sunk());
    ship.hit_at(&Cell::bounded(2, 0));
    assert!(!ship.is_sunk());
    ship.hit_at(&Cell::bounded(3, 0));
    assert!(!ship.is_sunk());
    ship.hit_at(&Cell::bounded(4, 0));
    assert!(ship.is_sunk());
}

// Aircraft Carrier placed horizontally at the origin: four hits leave it
// afloat, the fifth sinks it.
#[test]
fn test_carrier_sinks_on_fifth_hit() {
    let mut ship = carrier_at(0, 0, ShipOrientation::Horizontal).unwrap();
    for x in 0u8..4 {
        assert!(ship.hit_at(&Cell::bounded(x, 0)));
        assert!(!ship.is_sunk());
    }
    assert!(ship.hit_at(&Cell::bounded(4, 0)));
    assert!(ship.is_sunk());
}

// Hitting the same segment twice reports a hit both times but changes
// nothing the second time; hitting off the footprint never changes state.
#[test]
fn test_hit_idempotent_and_miss_harmless() {
    let mut ship = carrier_at(3, 3, ShipOrientation::Vertical).unwrap();
    assert!(ship.hit_at(&Cell::bounded(3, 4)));
    let after_first = ship.state;
    assert!(ship.hit_at(&Cell::bounded(3, 4)));
    assert_eq!(ship.state, after_first);
    assert!(!ship.hit_at(&Cell::bounded(8, 8)));
    assert_eq!(ship.state, after_first);
}

// The footprint is exactly `length` distinct, board-bounded, consecutive
// cells along the orientation axis.
#[test]
fn test_occupied_cells_exact() {
    let ship = ShipKind::Battleship
        .ship(Cell::bounded(2, 7), ShipOrientation::Horizontal)
        .unwrap();
    let cells = ship.occupied_cells();
    assert_eq!(cells.len(), 4);
    for (i, c) in cells.iter().enumerate() {
        assert_eq!(c.x, 2 + i as u8);
        assert_eq!(c.y, 7);
        assert!(c.x <= 9 && c.y <= 9);
    }
    for i in 0..cells.len() {
        for j in 0..cells.len() {
            if i != j {
                assert_ne!(cells[i], cells[j]);
            }
        }
    }

    let vertical = ShipKind::Destroyer
        .ship(Cell::bounded(9, 8), ShipOrientation::Vertical)
        .unwrap();
    let cells = vertical.occupied_cells();
    assert_eq!(cells.len(), 2);
    assert_eq!(cells[0], Cell::bounded(9, 8));
    assert_eq!(cells[1], Cell::bounded(9, 9));
}

#[test]
fn test_is_overlapping() {
    let pairs = vec![
        (carrier_at(3, 3, ShipOrientation::Horizontal), carrier_at(4, 4, ShipOrientation::Horizontal)),
        (carrier_at(4, 4, ShipOrientation::Horizontal), carrier_at(3, 3, ShipOrientation::Horizontal)),
        (carrier_at(3, 3, ShipOrientation::Horizontal), carrier_at(4, 4, ShipOrientation::Vertical)),
        (carrier_at(3, 3, ShipOrientation::Horizontal), carrier_at(4, 0, ShipOrientation::Vertical)),
        (
            carrier_at(3, 3, ShipOrientation::Vertical),
            ShipKind::Submarine.ship(Cell::bounded(0, 4), ShipOrientation::Horizontal),
        ),
    ];
    for (ship1, ship2) in pairs {
        assert!(ship1.unwrap().is_overlapping(&ship2.unwrap()));
    }
}

// Overlap is symmetric, and ships separated by more than one cell do not
// overlap: adjacency (even diagonal) counts, distance two does not.
#[test]
fn test_overlap_symmetry_and_separation() {
    let a = ShipKind::Destroyer
        .ship(Cell::bounded(0, 0), ShipOrientation::Horizontal)
        .unwrap();
    let diagonal_neighbour = ShipKind::Destroyer
        .ship(Cell::bounded(2, 1), ShipOrientation::Horizontal)
        .unwrap();
    assert!(a.is_overlapping(&diagonal_neighbour));
    assert!(diagonal_neighbour.is_overlapping(&a));

    let two_rows_down = ShipKind::Destroyer
        .ship(Cell::bounded(0, 2), ShipOrientation::Horizontal)
        .unwrap();
    assert!(!a.is_overlapping(&two_rows_down));
    assert!(!two_rows_down.is_overlapping(&a));
}

#[test]
fn test_validate_ships() {
    let clear = vec![
        ShipKind::AircraftCarrier
            .ship(Cell::bounded(0, 0), ShipOrientation::Horizontal)
            .unwrap(),
        ShipKind::Destroyer
            .ship(Cell::bounded(0, 2), ShipOrientation::Horizontal)
            .unwrap(),
    ];
    assert!(validate_ships(clear.as_slice()).is_ok());

    let clashing = vec![
        ShipKind::AircraftCarrier
            .ship(Cell::bounded(0, 0), ShipOrientation::Horizontal)
            .unwrap(),
        ShipKind::Destroyer
            .ship(Cell::bounded(0, 1), ShipOrientation::Horizontal)
            .unwrap(),
    ];
    assert_eq!(validate_ships(clashing.as_slice()), Err("Ships overlap"));
}

#[test]
fn test_random_ship() {
    let ship1 = ShipKind::AircraftCarrier.random();
    assert_eq!(ship1.ship_size, 5);
    assert!(!ship1.is_sunk());
    let mut counter = 0;
    loop {
        counter += 1;
        let tmp = ShipKind::AircraftCarrier.random();
        assert_eq!(tmp.ship_size, 5);
        if ship1 != tmp {
            break;
        } else if counter > 100 {
            panic!("Random ship is always the same!");
        }
    }
}

#[test]
fn test_kind_sizes_and_names() {
    assert_eq!(ShipKind::AircraftCarrier.size(), 5);
    assert_eq!(ShipKind::Battleship.size(), 4);
    assert_eq!(ShipKind::Cruiser.size(), 3);
    assert_eq!(ShipKind::Submarine.size(), 3);
    assert_eq!(ShipKind::Destroyer.size(), 2);
    assert_eq!(ShipKind::AircraftCarrier.name(), "Aircraft Carrier");
    assert_eq!(ShipKind::Destroyer.name(), "Destroyer");
}
