use ml_metadata::decimal_string;
use ml_metadata::parse_index;

#[test]
fn decimal_formatting() {
    assert_eq!(decimal_string(0), "0");
    assert_eq!(decimal_string(7), "7");
    assert_eq!(decimal_string(10), "10");
    assert_eq!(decimal_string(100), "100");
    assert_eq!(decimal_string(90210), "90210");
    assert_eq!(decimal_string(u64::MAX), "18446744073709551615");
}

#[test]
fn parse_accepts_plain_numerals() {
    assert_eq!(parse_index("0"), Some(0));
    assert_eq!(parse_index("42"), Some(42));
    assert_eq!(parse_index("007"), Some(7));
    assert_eq!(parse_index("18446744073709551615"), Some(u64::MAX));
}

#[test]
fn parse_accepts_a_leading_plus() {
    assert_eq!(parse_index("+0"), Some(0));
    assert_eq!(parse_index("+99"), Some(99));
}

#[test]
fn parse_rejects_non_numerals() {
    assert_eq!(parse_index("abc"), None);
    assert_eq!(parse_index(""), None);
    assert_eq!(parse_index("+"), None);
    assert_eq!(parse_index("-1"), None);
    assert_eq!(parse_index("1 2"), None);
    assert_eq!(parse_index("12x"), None);
    assert_eq!(parse_index("1.5"), None);
    assert_eq!(parse_index("++1"), None);
}

#[test]
fn parse_rejects_values_beyond_u64() {
    assert_eq!(parse_index("18446744073709551616"), None);
    assert_eq!(parse_index("99999999999999999999999"), None);
}

#[test]
fn parse_matches_the_standard_parser() {
    for s in ["0", "42", "+8", "18446744073709551615", "18446744073709551616", "abc", "", "-3"] {
        assert_eq!(parse_index(s), s.parse::<u64>().ok(), "on {:?}", s);
    }
}

#[test]
fn parse_reads_back_formatted_numerals() {
    for n in [0u64, 1, 9, 10, 12345, u64::MAX] {
        assert_eq!(parse_index(decimal_string(n).as_str()), Some(n));
    }
}
