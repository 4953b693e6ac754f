use puddle_core::grid::parse::parse_location;
use puddle_core::grid::{Location, LocationParseError};

#[test]
fn parses_row_then_column() {
    assert_eq!(Location::from_text("(3, -2)"), Ok(Location { y: 3, x: -2 }));
    assert_eq!("(3, -2)".parse::<Location>(), Ok(Location { y: 3, x: -2 }));
}

#[test]
fn refuses_text_without_parentheses() {
    assert_eq!(Location::from_text("3,-2"), Err(LocationParseError::Shape));
    assert!("3,-2".parse::<Location>().is_err());
}

#[test]
fn refuses_a_single_field() {
    assert_eq!(Location::from_text("(3)"), Err(LocationParseError::Shape));
    assert!("(3)".parse::<Location>().is_err());
}

#[test]
fn accepts_white_space_around_the_whole_and_the_fields() {
    assert_eq!(Location::from_text("  (1,1)\n"), Ok(Location { y: 1, x: 1 }));
    assert_eq!(Location::from_text("( 7 ,\t8 )"), Ok(Location { y: 7, x: 8 }));
    assert_eq!(Location::from_text("\r\n(\u{b}0\u{c},0)"), Ok(Location { y: 0, x: 0 }));
}

#[test]
fn accepts_signs_and_leading_zeros() {
    assert_eq!(Location::from_text("(+4,-0)"), Ok(Location { y: 4, x: 0 }));
    assert_eq!(Location::from_text("(007,-010)"), Ok(Location { y: 7, x: -10 }));
}

#[test]
fn accepts_the_ends_of_the_range() {
    assert_eq!(
        Location::from_text("(2147483647,-2147483648)"),
        Ok(Location { y: i32::MAX, x: i32::MIN })
    );
}

#[test]
fn refuses_numbers_out_of_range() {
    assert_eq!(Location::from_text("(2147483648,0)"), Err(LocationParseError::Coordinate));
    assert_eq!(Location::from_text("(0,-2147483649)"), Err(LocationParseError::Coordinate));
    assert_eq!(
        Location::from_text("(99999999999999999999999999,0)"),
        Err(LocationParseError::Coordinate)
    );
}

#[test]
fn refuses_fields_that_are_no_numbers() {
    for text in ["(,)", "(1,)", "(,1)", "(a,1)", "(1,b)", "(+,1)", "(-,1)", "(1 2,3)", "(1,--2)", "(1.0,2)", "((1,2))", "(1,(2))"] {
        assert_eq!(Location::from_text(text), Err(LocationParseError::Coordinate), "{}", text);
    }
}

#[test]
fn refuses_other_shapes() {
    for text in ["", " ", "(", ")", "()", "(1,2", "1,2)", "(1,2,3)", "(1,2) x", "x (1,2)", "(1;2)", ")1,2("] {
        assert_eq!(Location::from_text(text), Err(LocationParseError::Shape), "{}", text);
    }
}

#[test]
fn accepts_white_space_beyond_ascii() {
    assert_eq!(Location::from_text("\u{a0}(1,2)"), Ok(Location { y: 1, x: 2 }));
    assert_eq!(Location::from_text("(\u{2003}1,2\u{3000})\u{85}"), Ok(Location { y: 1, x: 2 }));
    assert_eq!(Location::from_text("\u{1680}(1\u{2028},\u{205f}2)"), Ok(Location { y: 1, x: 2 }));
    for text in ["\u{a0}( 7 , -8 )\u{2009}", " (3, -2)\u{202f}", "\u{2029}(0,0)"] {
        let trimmed: Vec<&str> = text
            .trim()
            .trim_matches(|p| p == '(' || p == ')')
            .split(',')
            .map(|s| s.trim())
            .collect();
        let expected = Location { y: trimmed[0].parse().unwrap(), x: trimmed[1].parse().unwrap() };
        assert_eq!(Location::from_text(text), Ok(expected), "{}", text);
    }
}

#[test]
fn refuses_what_is_no_white_space() {
    // zero width space, and digits that are not ASCII
    assert_eq!(Location::from_text("\u{200b}(1,2)"), Err(LocationParseError::Shape));
    assert_eq!(Location::from_text("(1\u{200b},2)"), Err(LocationParseError::Coordinate));
    assert_eq!(Location::from_text("(\u{661},2)"), Err(LocationParseError::Coordinate));
    assert_eq!(Location::from_text("\u{ff08}1,2\u{ff09}"), Err(LocationParseError::Shape));
}

#[test]
fn parses_characters() {
    let text: Vec<char> = "(12, 34)".chars().collect();
    assert_eq!(parse_location(&text), Ok(Location { y: 12, x: 34 }));
    assert_eq!(parse_location(&['(', '\u{e9}', ',', '1', ')']), Err(LocationParseError::Coordinate));
    assert_eq!(parse_location(&[]), Err(LocationParseError::Shape));
}
