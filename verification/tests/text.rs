use elevator::text::{is_blank, is_digit, parse_floor};
use elevator::{ElevatorError, Floor};

#[test]
fn plain_numbers_are_read() {
    assert_eq!(parse_floor("3"), Ok(Floor(3)));
    assert_eq!(parse_floor("0"), Ok(Floor(0)));
    assert_eq!(parse_floor("-2"), Ok(Floor(-2)));
    assert_eq!(parse_floor("+5"), Ok(Floor(5)));
    assert_eq!(parse_floor("99"), Ok(Floor(99)));
}

#[test]
fn white_space_on_both_sides_is_left_out() {
    assert_eq!(parse_floor("3\n"), Ok(Floor(3)));
    assert_eq!(parse_floor("  -1\r\n"), Ok(Floor(-1)));
    assert_eq!(parse_floor("\t 4 \t"), Ok(Floor(4)));
    assert_eq!(parse_floor("\u{a0}2\u{3000}"), Ok(Floor(2)));
    assert_eq!(parse_floor("\u{2003}5\u{85}"), Ok(Floor(5)));
}

#[test]
fn white_space_inside_is_malformed() {
    assert_eq!(parse_floor("1 2"), Err(ElevatorError::InvalidFloorText));
    assert_eq!(parse_floor("- 2"), Err(ElevatorError::InvalidFloorText));
}

#[test]
fn leading_zeros_are_accepted() {
    assert_eq!(parse_floor("007"), Ok(Floor(7)));
    assert_eq!(parse_floor("-000"), Ok(Floor(0)));
    assert_eq!(parse_floor("0000000000000000000000000000000127"), Ok(Floor(127)));
}

#[test]
fn numbers_beyond_the_range_of_floors_are_read() {
    assert_eq!(parse_floor("6"), Ok(Floor(6)));
    assert_eq!(parse_floor("-3"), Ok(Floor(-3)));
    assert_eq!(parse_floor("127"), Ok(Floor(127)));
    assert_eq!(parse_floor("128"), Ok(Floor(128)));
    assert_eq!(parse_floor("200"), Ok(Floor(200)));
    assert_eq!(parse_floor("200\n"), Ok(Floor(200)));
    assert_eq!(parse_floor("-129"), Ok(Floor(-129)));
    assert_eq!(parse_floor("1000"), Ok(Floor(1000)));
    assert_eq!(parse_floor("-4294967296"), Ok(Floor(-4294967296)));
}

#[test]
fn limits_of_the_floor_number() {
    assert_eq!(parse_floor("9223372036854775807"), Ok(Floor(i64::MAX)));
    assert_eq!(parse_floor("+9223372036854775807"), Ok(Floor(i64::MAX)));
    assert_eq!(parse_floor("9223372036854775808"), Err(ElevatorError::InvalidFloorText));
    assert_eq!(parse_floor("-9223372036854775808"), Ok(Floor(i64::MIN)));
    assert_eq!(parse_floor("-9223372036854775809"), Err(ElevatorError::InvalidFloorText));
    assert_eq!(parse_floor("00009223372036854775807"), Ok(Floor(i64::MAX)));
    assert_eq!(parse_floor("18446744073709551616"), Err(ElevatorError::InvalidFloorText));
    assert_eq!(parse_floor("99999999999999999999999999"), Err(ElevatorError::InvalidFloorText));
    assert_eq!(
        parse_floor("340282366920938463463374607431768211456"),
        Err(ElevatorError::InvalidFloorText)
    );
    assert_eq!(
        parse_floor("-999999999999999999999999999999999999999999999999"),
        Err(ElevatorError::InvalidFloorText)
    );
}

#[test]
fn malformed_text_is_refused() {
    assert_eq!(parse_floor("abc"), Err(ElevatorError::InvalidFloorText));
    assert_eq!(parse_floor(""), Err(ElevatorError::InvalidFloorText));
    assert_eq!(parse_floor("   \n"), Err(ElevatorError::InvalidFloorText));
    assert_eq!(parse_floor("-"), Err(ElevatorError::InvalidFloorText));
    assert_eq!(parse_floor("+"), Err(ElevatorError::InvalidFloorText));
    assert_eq!(parse_floor("--1"), Err(ElevatorError::InvalidFloorText));
    assert_eq!(parse_floor("+-1"), Err(ElevatorError::InvalidFloorText));
    assert_eq!(parse_floor("3a"), Err(ElevatorError::InvalidFloorText));
    assert_eq!(parse_floor("1.5"), Err(ElevatorError::InvalidFloorText));
    assert_eq!(parse_floor("٣"), Err(ElevatorError::InvalidFloorText));
    assert_eq!(parse_floor("999x"), Err(ElevatorError::InvalidFloorText));
}

#[test]
fn reading_agrees_with_the_standard_reader() {
    let samples = [
        "0", "7", "-7", "+7", "127", "128", "-128", "-129", "", " ", "-", "+", "abc", " 12 ",
        "\n3\n", "0012", "-0", "+0", "1_0", "0x10", "１２", "12\u{200b}", "\u{feff}1", "\u{1680}9 ",
        "\u{2028}-3\u{2029}", "\u{202f}4\u{205f}", "\u{b}5\u{c}", "\u{1c}6", "6\u{1f}", "255", "-255",
        "200", "65536", "-2147483649", "9223372036854775807", "9223372036854775808",
        "-9223372036854775808", "-9223372036854775809", "92233720368547758070",
        "+9223372036854775807", "12345678901234567890123", "999x",
    ];
    for s in samples {
        let expected = s.trim().parse::<i64>().ok();
        assert_eq!(parse_floor(s).ok().map(|f| f.0), expected, "{:?}", s);
    }
    for n in -300i64..=300 {
        assert_eq!(parse_floor(&format!(" {}\n", n)), Ok(Floor(n)));
        assert_eq!(parse_floor(&format!("{:+}", n)), Ok(Floor(n)));
    }
    let mut n: i64 = 1;
    while n < i64::MAX / 7 {
        n = n * 7 + 3;
        assert_eq!(parse_floor(&n.to_string()), Ok(Floor(n)));
        assert_eq!(parse_floor(&(-n).to_string()), Ok(Floor(-n)));
    }
}

#[test]
fn blanks_are_the_white_space_characters() {
    for u in 0u32..0x11000 {
        if let Some(c) = char::from_u32(u) {
            assert_eq!(is_blank(c), c.is_whitespace(), "{:x}", u);
            assert_eq!(is_digit(c), c.is_ascii_digit(), "{:x}", u);
        }
    }
}
