use http_server::{format_decimal, parse_decimal};

#[test]
fn format_decimal_writes_the_shortest_numeral() {
    assert_eq!(format_decimal(0), "0");
    assert_eq!(format_decimal(7), "7");
    assert_eq!(format_decimal(10), "10");
    assert_eq!(format_decimal(21), "21");
    assert_eq!(format_decimal(56), "56");
    assert_eq!(format_decimal(404), "404");
    assert_eq!(format_decimal(1000), "1000");
    assert_eq!(format_decimal(u64::MAX), "18446744073709551615");
}

#[test]
fn format_decimal_agrees_with_the_standard_library() {
    let mut n: u64 = 1;
    for _ in 0..64 {
        assert_eq!(format_decimal(n), n.to_string());
        assert_eq!(format_decimal(n - 1), (n - 1).to_string());
        n = n.wrapping_mul(2);
    }
}

#[test]
fn parse_decimal_reads_unsigned_numerals() {
    assert_eq!(parse_decimal("0"), Some(0));
    assert_eq!(parse_decimal("5"), Some(5));
    assert_eq!(parse_decimal("42"), Some(42));
    assert_eq!(parse_decimal("007"), Some(7));
    assert_eq!(parse_decimal("+5"), Some(5));
    assert_eq!(parse_decimal(&usize::MAX.to_string()), Some(usize::MAX));
}

#[test]
fn parse_decimal_refuses_everything_else() {
    assert_eq!(parse_decimal(""), None);
    assert_eq!(parse_decimal("+"), None);
    assert_eq!(parse_decimal("-5"), None);
    assert_eq!(parse_decimal("-0"), None);
    assert_eq!(parse_decimal("5 "), None);
    assert_eq!(parse_decimal(" 5"), None);
    assert_eq!(parse_decimal("5+"), None);
    assert_eq!(parse_decimal("++5"), None);
    assert_eq!(parse_decimal("1.5"), None);
    assert_eq!(parse_decimal("abc"), None);
    assert_eq!(parse_decimal("12a"), None);
    assert_eq!(parse_decimal("\u{661}"), None);
}

#[test]
fn parse_decimal_refuses_numbers_that_do_not_fit() {
    assert_eq!(parse_decimal("340282366920938463463374607431768211456"), None);
    assert_eq!(parse_decimal("99999999999999999999999999"), None);
    let mut too_large = usize::MAX.to_string();
    too_large.push('0');
    assert_eq!(parse_decimal(&too_large), None);
}

#[test]
fn parse_decimal_agrees_with_the_standard_library() {
    let samples = [
        "0", "1", "+1", "-1", "", "+", "00", "+00012", "12 ", "1_000", "0x10", "18446744073709551615",
        "18446744073709551616", "4294967295", "4294967296", "9", "+-3",
    ];
    for text in samples {
        assert_eq!(parse_decimal(text), text.parse::<usize>().ok(), "{:?}", text);
    }
}

#[test]
fn reading_what_was_written_gives_the_number_back() {
    for n in [0u64, 1, 9, 10, 11, 99, 100, 101, 65535, 1 << 31] {
        assert_eq!(parse_decimal(&format_decimal(n)), Some(n as usize));
    }
}
