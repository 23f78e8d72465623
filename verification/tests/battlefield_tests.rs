use naval_battle::battlefield::Battlefield;
use naval_battle::battlefield::ShootState;
use naval_battle::grid::Cell;
use naval_battle::ship::Ship;
use naval_battle::ship::ShipKind;
use naval_battle::ship::ShipOrientation;

fn rowwise_ships() -> Vec<Ship> {
    vec![
        ShipKind::AircraftCarrier
            .ship(Cell::bounded(0, 0), ShipOrientation::Horizontal)
            .unwrap(),
        ShipKind::Battleship
            .ship(Cell::bounded(0, 2), ShipOrientation::Horizontal)
            .unwrap(),
        ShipKind::Submarine
            .ship(Cell::bounded(0, 4), ShipOrientation::Horizontal)
            .unwrap(),
        ShipKind::Cruiser
            .ship(Cell::bounded(0, 6), ShipOrientation::Horizontal)
            .unwrap(),
        ShipKind::Destroyer
            .ship(Cell::bounded(0, 8), ShipOrientation::Horizontal)
            .unwrap(),
    ]
}

#[test]
fn test_new_rejects_overlap() {
    let mut ships = rowwise_ships();
    ships[4] = ShipKind::Destroyer
        .ship(Cell::bounded(0, 1), ShipOrientation::Horizontal)
        .unwrap();
    assert_eq!(Battlefield::new(ships).err(), Some("Ships overlap"));
}

#[test]
fn test_check_hit_miss_sunk() {
    let mut field = Battlefield::new(rowwise_ships()).unwrap();
    assert_eq!(field.check(Cell::bounded(9, 9)), ShootState::Miss);
    assert_eq!(field.check(Cell::bounded(0, 8)), ShootState::Hit);
    assert_eq!(field.check(Cell::bounded(1, 8)), ShootState::Sunk);
    // the record keeps the last outcome per cell
    assert_eq!(field.check(Cell::bounded(1, 8)), ShootState::Sunk);
}

#[test]
fn test_is_defeated() {
    let mut field = Battlefield::new(rowwise_ships()).unwrap();
    assert!(!field.is_defeated());
    let footprints: Vec<(u8, u8)> = vec![
        (0, 0), (1, 0), (2, 0), (3, 0), (4, 0),
        (0, 2), (1, 2), (2, 2), (3, 2),
        (0, 4), (1, 4), (2, 4),
        (0, 6), (1, 6), (2, 6),
        (0, 8), (1, 8),
    ];
    for (x, y) in footprints {
        assert_ne!(field.check(Cell::bounded(x, y)), ShootState::Miss);
    }
    assert!(field.is_defeated());
}

#[test]
fn test_random_battlefield_is_untouched() {
    let field = Battlefield::random();
    assert!(!field.is_defeated());
    assert_eq!(field.ships.len(), 5);
    for i in 0..5 {
        for j in (i + 1)..5 {
            assert!(!field.ships[i].is_overlapping(&field.ships[j]));
        }
    }
}

#[test]
fn test_attack_avoids_tried_cells() {
    let mut field = Battlefield::new(rowwise_ships()).unwrap();
    let mut tried = Vec::new();
    for _ in 0..30 {
        let cell = field.attack();
        assert!(cell.x() <= 9 && cell.y() <= 9);
        assert!(!tried.contains(&cell));
        field.check(cell);
        tried.push(cell);
    }
}

#[test]
fn test_display_layout() {
    let mut field = Battlefield::new(rowwise_ships()).unwrap();
    field.check(Cell::bounded(0, 0));
    field.check(Cell::bounded(9, 9));
    let out = field.display();
    let lines: Vec<&str> = out.lines().collect();
    assert_eq!(lines.len(), 11);
    assert_eq!(lines[0], "  A B C D E F G H I J ");
    assert_eq!(lines[1], "0 X                   ");
    assert_eq!(lines[10], "9                   . ");
    for (i, line) in lines.iter().enumerate().skip(1) {
        assert_eq!(line.chars().next().unwrap(), char::from(b'0' + (i as u8 - 1)));
        assert_eq!(line.len(), 22);
    }
}
