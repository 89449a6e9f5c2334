use scheduling_optimizer::text::{parse_number, signed_to_text, str_eq, str_le, str_lt, unsigned_to_text};

#[test]
fn strings_are_ordered_by_code_points() {
    let ordered = ["", "A", "Z", "a", "ab", "abc", "b", "z", "\u{e9}", "\u{20ac}", "\u{ffff}", "\u{10000}", "\u{1f600}"];
    for (i, a) in ordered.iter().enumerate() {
        for (j, b) in ordered.iter().enumerate() {
            assert_eq!(str_lt(a, b), i < j);
            assert_eq!(str_le(a, b), i <= j);
            assert_eq!(str_eq(a, b), i == j);
            assert_eq!(str_lt(a, b), a < b);
        }
    }
}

#[test]
fn times_and_dates_are_ordered_as_text() {
    assert!(str_lt("08:00", "09:30"));
    assert!(str_lt("09:45", "13:30"));
    assert!(!str_lt("13:30", "13:30"));
    assert!(str_le("13:30", "13:30"));
    assert!(str_lt("2024-12-31", "2025-01-01"));
    assert!(str_lt("9:00", "09:00") == false);
}

#[test]
fn equal_strings_have_the_same_characters() {
    assert!(str_eq("", ""));
    assert!(str_eq("TimeSlot", "TimeSlot"));
    assert!(!str_eq("TimeSlot", "Timeslot"));
    assert!(!str_eq("TimeSlot", "TimeSlo"));
    assert!(!str_eq("ab", "ba"));
    assert!(!str_eq("\u{e9}", "e\u{301}"));
    assert!(!str_eq("\u{e9}", "ab"));
    assert!(str_eq("gr\u{f6}\u{df}e", "gr\u{f6}\u{df}e"));
}

#[test]
fn integers_are_read_with_an_optional_sign() {
    assert_eq!(parse_number("0"), Some(0));
    assert_eq!(parse_number("7"), Some(7));
    assert_eq!(parse_number("42"), Some(42));
    assert_eq!(parse_number("+42"), Some(42));
    assert_eq!(parse_number("-42"), Some(-42));
    assert_eq!(parse_number("-0"), Some(0));
    assert_eq!(parse_number("+0"), Some(0));
    assert_eq!(parse_number("007"), Some(7));
    assert_eq!(parse_number("-007"), Some(-7));
    assert_eq!(parse_number("0000000000000000000012"), Some(12));
}

#[test]
fn integers_are_read_within_32_bits() {
    assert_eq!(parse_number("2147483647"), Some(i32::MAX));
    assert_eq!(parse_number("+2147483647"), Some(i32::MAX));
    assert_eq!(parse_number("-2147483648"), Some(i32::MIN));
    assert_eq!(parse_number("2147483648"), None);
    assert_eq!(parse_number("+2147483648"), None);
    assert_eq!(parse_number("-2147483649"), None);
    assert_eq!(parse_number("4294967296"), None);
    assert_eq!(parse_number("99999999999999999999999999"), None);
    assert_eq!(parse_number("-99999999999999999999999999"), None);
    assert_eq!(parse_number("21474836470"), None);
}

#[test]
fn anything_else_is_no_integer() {
    for s in ["", "+", "-", "--1", "+-1", "-+1", "1-", "1+1", " 1", "1 ", "1.0", "1e3", "0x10", "1_000", "one", "\u{663}", "1\u{663}", "\u{ff11}", "-\u{e9}", "12a", "a12"] {
        assert_eq!(parse_number(s), None);
        assert_eq!(parse_number(s), s.parse::<i32>().ok());
    }
}

#[test]
fn reading_agrees_with_the_standard_parser() {
    for s in ["0", "-0", "+0", "5", "-5", "+5", "0005", "2147483647", "2147483648", "-2147483648", "-2147483649", "123456789", "+", "", "٣"] {
        assert_eq!(parse_number(s), s.parse::<i32>().ok());
    }
}

#[test]
fn unsigned_numbers_are_rendered_in_decimal() {
    assert_eq!(unsigned_to_text(0), "0");
    assert_eq!(unsigned_to_text(7), "7");
    assert_eq!(unsigned_to_text(10), "10");
    assert_eq!(unsigned_to_text(907), "907");
    assert_eq!(unsigned_to_text(1000), "1000");
    assert_eq!(unsigned_to_text(1234567890), "1234567890");
    assert_eq!(unsigned_to_text(u32::MAX), "4294967295");
    for n in [0u32, 1, 9, 10, 11, 99, 100, 101, 65535, 65536, 999999999, 1000000000, u32::MAX - 1] {
        assert_eq!(unsigned_to_text(n), n.to_string());
    }
}

#[test]
fn signed_numbers_are_rendered_in_decimal() {
    assert_eq!(signed_to_text(0), "0");
    assert_eq!(signed_to_text(90), "90");
    assert_eq!(signed_to_text(-7), "-7");
    assert_eq!(signed_to_text(-10), "-10");
    assert_eq!(signed_to_text(i32::MAX), "2147483647");
    assert_eq!(signed_to_text(i32::MIN), "-2147483648");
    for n in [-1i32, 1, -9, -99, -100, 12345, -12345, i32::MIN + 1, i32::MAX - 1] {
        assert_eq!(signed_to_text(n), n.to_string());
    }
}

#[test]
fn rendering_and_reading_are_inverse() {
    for n in [0i32, 1, -1, 10, -10, 12345, -98765, i32::MAX, i32::MIN] {
        assert_eq!(parse_number(&signed_to_text(n)), Some(n));
    }
}
