//! Parsing of console move input: a column letter, a single row digit and,
//! for ship placement, an orientation letter.
//!
//! This is the terse console form ("a5", "j9H"): the column is a letter A-J
//! in either case, the row a single digit 0-9, the orientation H or V in
//! either case.  Characters beyond the ones read are ignored.  The richer
//! label form with 1-based rows lives in [`crate::grid::Cell::parse_label`].

use crate::grid::digit_value;
use crate::grid::letter_index;
use crate::ship::ShipOrientation;
use vstd::prelude::*;
use vstd::string::StrSliceExecFns;
use vstd::string::StringExecFns;

verus! {

/// Reads a column letter A-J (either case) and a single row digit 0-9 from
/// the start of the text; anything after them is ignored.  Returns the
/// zero-based coordinates.
pub fn parse_coordinates(coordinates: &str) -> (r: Result<(u8, u8), String>)
    ensures
        match r {
            Ok((x, y)) => {
                &&& coordinates@.len() >= 2
                &&& letter_index(coordinates@[0]) == x as int
                &&& digit_value(coordinates@[1]) == y as int
                &&& x <= 9 && y <= 9
            },
            Err(m) => {
                if coordinates@.len() == 0 {
                    m@ == "Missing X coordinate: expected A,B,C,D,E,F,G,H,I,J"@
                } else if letter_index(coordinates@[0]) < 0 {
                    m@ == "Invalid X coordinate: expected A,B,C,D,E,F,G,H,I,J"@
                } else if coordinates@.len() == 1 {
                    m@ == "Missing Y coordinate: expected 0,1,2,3,4,5,6,7,8,9"@
                } else {
                    digit_value(coordinates@[1]) < 0 && m@
                        == "Invalid Y coordinate: expected 0,1,2,3,4,5,6,7,8,9"@
                }
            },
        },
{
    let n: usize = coordinates.unicode_len();
    if n == 0 {
        return Err(String::from_str("Missing X coordinate: expected A,B,C,D,E,F,G,H,I,J"));
    }
    let first: char = coordinates.get_char(0);
    let fc: u32 = first as u32;
    let x: u8 = if fc >= 65 && fc <= 74 {
        (fc - 65) as u8
    } else if fc >= 97 && fc <= 106 {
        (fc - 97) as u8
    } else {
        return Err(String::from_str("Invalid X coordinate: expected A,B,C,D,E,F,G,H,I,J"));
    };

    if n < 2 {
        return Err(String::from_str("Missing Y coordinate: expected 0,1,2,3,4,5,6,7,8,9"));
    }
    let second: char = coordinates.get_char(1);
    let sc: u32 = second as u32;
    if sc < 48 || sc > 57 {
        return Err(String::from_str("Invalid Y coordinate: expected 0,1,2,3,4,5,6,7,8,9"));
    }
    let y: u8 = (sc - 48) as u8;
    Ok((x, y))
}

/// Reads a full ship placement from the start of the text: coordinates as
/// in [`parse_coordinates`], then an orientation letter H or V in either
/// case.  Anything after the three characters is ignored.
pub fn parse_ship_position(coordinates: &str) -> (r: Result<(u8, u8, ShipOrientation), String>)
    ensures
        match r {
            Ok((x, y, o)) => {
                &&& coordinates@.len() >= 3
                &&& letter_index(coordinates@[0]) == x as int
                &&& digit_value(coordinates@[1]) == y as int
                &&& x <= 9 && y <= 9
                &&& (coordinates@[2] == 'h' || coordinates@[2] == 'H' <==> o
                    == ShipOrientation::Horizontal)
                &&& (coordinates@[2] == 'v' || coordinates@[2] == 'V' <==> o
                    == ShipOrientation::Vertical)
            },
            Err(m) => {
                if coordinates@.len() == 0 {
                    m@ == "Missing X coordinate: expected A,B,C,D,E,F,G,H,I,J"@
                } else if letter_index(coordinates@[0]) < 0 {
                    m@ == "Invalid X coordinate: expected A,B,C,D,E,F,G,H,I,J"@
                } else if coordinates@.len() == 1 {
                    m@ == "Missing Y coordinate: expected 0,1,2,3,4,5,6,7,8,9"@
                } else if digit_value(coordinates@[1]) < 0 {
                    m@ == "Invalid Y coordinate: expected 0,1,2,3,4,5,6,7,8,9"@
                } else if coordinates@.len() == 2 {
                    m@ == "Missing orientation: expected H or V"@
                } else {
                    coordinates@[2] != 'h' && coordinates@[2] != 'H' && coordinates@[2] != 'v'
                        && coordinates@[2] != 'V' && m@ == "Invalid orientation"@
                }
            },
        },
{
    let (x, y): (u8, u8) = match parse_coordinates(coordinates) {
        Ok(xy) => xy,
        Err(m) => {
            return Err(m);
        },
    };

    let n: usize = coordinates.unicode_len();
    if n < 3 {
        return Err(String::from_str("Missing orientation: expected H or V"));
    }
    let third: char = coordinates.get_char(2);
    if third == 'h' || third == 'H' {
        Ok((x, y, ShipOrientation::Horizontal))
    } else if third == 'v' || third == 'V' {
        Ok((x, y, ShipOrientation::Vertical))
    } else {
        Err(String::from_str("Invalid orientation"))
    }
}

} // verus!
