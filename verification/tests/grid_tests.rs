use naval_battle::grid::Cell;
use naval_battle::grid::CellState;
use naval_battle::grid::Error;
use naval_battle::grid::Grid;
use naval_battle::ship::ShipKind;
use naval_battle::ship::ShipOrientation;

#[test]
fn test_bounded_cell() {
    let cases: Vec<(u8, u8, u8, u8)> = vec![
        (0, 0, 0, 0),
        (9, 9, 9, 9),
        (5, 7, 5, 7),
        (10, 15, 9, 9),
        (10, 5, 9, 5),
        (7, 15, 7, 9),
        (255, 255, 9, 9),
    ];
    for (x, y, expected_x, expected_y) in cases {
        let cell = Cell::bounded(x, y);
        assert_eq!(cell.x(), expected_x);
        assert_eq!(cell.y(), expected_y);
    }
}

#[test]
fn test_new_cell() {
    for (x, y) in [(0u8, 0u8), (9, 9), (5, 7)] {
        let cell = Cell::new(x, y).unwrap();
        assert_eq!(cell.x(), x);
        assert_eq!(cell.y(), y);
    }
}

#[test]
fn test_error_cell() {
    assert_eq!(Cell::new(10, 15).err().unwrap(), Error::InvalidCoordinates(10, 15));
    assert_eq!(Cell::new(10, 5).err().unwrap(), Error::InvalidX(10));
    assert_eq!(Cell::new(7, 15).err().unwrap(), Error::InvalidY(15));
    assert_eq!(Cell::new(255, 255).err().unwrap(), Error::InvalidCoordinates(255, 255));
}

#[test]
fn test_cell_parse_label() {
    let cases = vec![
        ("A1", Cell::new(0, 0)),
        ("J10", Cell::new(9, 9)),
        ("d6", Cell::new(3, 5)),
        ("D06", Cell::new(3, 5)),
        ("e0001", Cell::new(4, 0)),
    ];
    for (s, expected) in cases {
        let cell = Cell::parse_label(s).unwrap();
        assert_eq!(cell, expected.unwrap());
    }
}

#[test]
fn test_cell_parse_label_errors() {
    // empty text, lone letter, letter + 0, letter + 11 and beyond,
    // whitespace, letters outside A-J, trailing garbage
    for s in ["", "A", "K1", "A0", "  A5  ", "A15", "A11", "5A", "A1x", "A 1", "J100"] {
        assert!(
            matches!(Cell::parse_label(s), Err(e) if e == Error::InvalidFormat(s.to_string()))
        );
    }
}

#[test]
fn test_cell_format_label() {
    assert_eq!(Cell::bounded(0, 0).format_label(), "A1");
    assert_eq!(Cell::bounded(9, 9).format_label(), "J10");
    assert_eq!(Cell::bounded(5, 7).format_label(), "F8");
}

// Label round trip: parsing the label of any board coordinate yields the
// same coordinate again.
#[test]
fn test_label_round_trip_whole_board() {
    for x in 0u8..10 {
        for y in 0u8..10 {
            let cell = Cell::bounded(x, y);
            let label = cell.format_label();
            assert_eq!(Cell::parse_label(&label).unwrap(), cell);
        }
    }
}

#[test]
fn test_move_left() {
    let mut cell = Cell::bounded(5, 5);
    cell.move_left();
    assert_eq!(cell, Cell::bounded(4, 5));
    let mut cell = Cell::bounded(0, 5);
    cell.move_left();
    assert_eq!(cell, Cell::bounded(9, 5));
}

#[test]
fn test_move_right() {
    let mut cell = Cell::bounded(5, 5);
    cell.move_right();
    assert_eq!(cell, Cell::bounded(6, 5));
    let mut cell = Cell::bounded(9, 5);
    cell.move_right();
    assert_eq!(cell, Cell::bounded(0, 5));
}

#[test]
fn test_move_up() {
    let mut cell = Cell::bounded(5, 5);
    cell.move_up();
    assert_eq!(cell, Cell::bounded(5, 4));
    let mut cell = Cell::bounded(5, 0);
    cell.move_up();
    assert_eq!(cell, Cell::bounded(5, 9));
}

#[test]
fn test_move_down() {
    let mut cell = Cell::bounded(5, 5);
    cell.move_down();
    assert_eq!(cell, Cell::bounded(5, 6));
    let mut cell = Cell::bounded(5, 9);
    cell.move_down();
    assert_eq!(cell, Cell::bounded(5, 0));
}

#[test]
fn test_new_grid_is_always_empty() {
    assert!(Grid::default().is_empty());
}

#[test]
fn test_grid_from_ships() {
    let ships = [
        ShipKind::AircraftCarrier
            .ship(Cell::bounded(0, 0), ShipOrientation::Horizontal)
            .unwrap(),
        ShipKind::Destroyer
            .ship(Cell::bounded(3, 3), ShipOrientation::Vertical)
            .unwrap(),
    ];

    let grid = Grid::from_ships(ships.as_slice());
    assert_eq!(*grid.at(&Cell::bounded(0, 0)), CellState::Occupied);
    assert_eq!(*grid.at(&Cell::bounded(1, 0)), CellState::Occupied);
    assert_eq!(*grid.at(&Cell::bounded(3, 3)), CellState::Occupied);
    assert_eq!(*grid.at(&Cell::bounded(3, 4)), CellState::Occupied);
    assert_eq!(*grid.at(&Cell::bounded(4, 3)), CellState::Empty);
    assert_eq!(*grid.at(&Cell::bounded(2, 3)), CellState::Empty);
}

#[test]
fn test_grid_mark_and_at() {
    let mut grid = Grid::default();
    assert_eq!(*grid.at(&Cell::bounded(3, 3)), CellState::Empty);
    grid.mark(&Cell::bounded(3, 3), CellState::Occupied);
    assert_eq!(*grid.at(&Cell::bounded(3, 3)), CellState::Occupied);
    grid.mark(&Cell::bounded(3, 3), CellState::Miss);
    assert_eq!(*grid.at(&Cell::bounded(3, 3)), CellState::Miss);
}

#[test]
fn test_grid_clone_is_exact() {
    let mut grid = Grid::default();
    grid.mark(&Cell::bounded(2, 2), CellState::Hit);
    let copy = grid.clone();
    assert_eq!(*copy.at(&Cell::bounded(2, 2)), CellState::Hit);
    assert_eq!(copy, grid);
}

#[test]
fn test_cell_random_is_on_board() {
    for _ in 0..100 {
        let c = Cell::random();
        assert!(c.x() <= 9 && c.y() <= 9);
    }
}
