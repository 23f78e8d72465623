use naval_battle::parser::parse_coordinates;
use naval_battle::parser::parse_ship_position;
use naval_battle::ship::ShipOrientation;

#[test]
fn test_parse_coordinates() {
    let cases: Vec<(&str, (u8, u8, ShipOrientation))> = vec![
        ("A5h", (0, 5, ShipOrientation::Horizontal)),
        ("j9H", (9, 9, ShipOrientation::Horizontal)),
        ("b0v", (1, 0, ShipOrientation::Vertical)),
        ("J0V", (9, 0, ShipOrientation::Vertical)),
    ];
    for (input, expected) in cases {
        assert_eq!(parse_ship_position(input).unwrap(), expected);
    }
}

#[test]
fn test_parse_coordinates_missing_x() {
    assert_eq!(
        parse_ship_position("").unwrap_err(),
        "Missing X coordinate: expected A,B,C,D,E,F,G,H,I,J"
    );
}

#[test]
fn test_parse_coordinates_invalid_x() {
    assert_eq!(
        parse_ship_position("p").unwrap_err(),
        "Invalid X coordinate: expected A,B,C,D,E,F,G,H,I,J"
    );
    assert_eq!(
        parse_ship_position("p0T").unwrap_err(),
        "Invalid X coordinate: expected A,B,C,D,E,F,G,H,I,J"
    );
}

#[test]
fn test_parse_coordinates_y_errors() {
    assert_eq!(
        parse_coordinates("a").unwrap_err(),
        "Missing Y coordinate: expected 0,1,2,3,4,5,6,7,8,9"
    );
    assert_eq!(
        parse_coordinates("ax").unwrap_err(),
        "Invalid Y coordinate: expected 0,1,2,3,4,5,6,7,8,9"
    );
    assert_eq!(parse_coordinates("a5"), Ok((0, 5)));
    // anything after the two characters read is ignored
    assert_eq!(parse_coordinates("a5zzz"), Ok((0, 5)));
}

#[test]
fn test_parse_ship_position_orientation_errors() {
    assert_eq!(
        parse_ship_position("a5").unwrap_err(),
        "Missing orientation: expected H or V"
    );
    assert_eq!(parse_ship_position("a5x").unwrap_err(), "Invalid orientation");
    // anything after the orientation is ignored
    assert_eq!(
        parse_ship_position("a5hXYZ").unwrap(),
        (0, 5, ShipOrientation::Horizontal)
    );
}
