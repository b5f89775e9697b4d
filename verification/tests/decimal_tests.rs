use backtest::decimal::parse_fixed;

#[test]
fn test_parse_plain_integer() {
    assert_eq!(parse_fixed(b"123"), Some(1_230_000));
    assert_eq!(parse_fixed(b"0"), Some(0));
    assert_eq!(parse_fixed(b"007"), Some(70_000));
}

#[test]
fn test_parse_fraction() {
    assert_eq!(parse_fixed(b"123.45"), Some(1_234_500));
    assert_eq!(parse_fixed(b"0.0001"), Some(1));
    assert_eq!(parse_fixed(b"1.2345"), Some(12_345));
    // A trailing dot is a well-formed numeral with an empty fraction.
    assert_eq!(parse_fixed(b"9."), Some(90_000));
}

#[test]
fn test_parse_truncates_extra_fraction_digits() {
    assert_eq!(parse_fixed(b"1.23456789"), Some(12_345));
    assert_eq!(parse_fixed(b"0.00009"), Some(0));
}

#[test]
fn test_parse_rejects_malformed_input() {
    assert_eq!(parse_fixed(b""), None);
    assert_eq!(parse_fixed(b"."), None);
    assert_eq!(parse_fixed(b".5"), None);
    assert_eq!(parse_fixed(b"1.2.3"), None);
    assert_eq!(parse_fixed(b"12a"), None);
    assert_eq!(parse_fixed(b"-1"), None);
    assert_eq!(parse_fixed(b"1 "), None);
}

#[test]
fn test_parse_rejects_out_of_range_values() {
    // One over the accepted bound of 10^14 currency units.
    assert_eq!(parse_fixed(b"100000000000000.0001"), None);
    assert_eq!(parse_fixed(b"100000000000000"), Some(1_000_000_000_000_000_000));
    assert_eq!(parse_fixed(b"999999999999999999999"), None);
}
