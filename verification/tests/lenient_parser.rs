use laminar::parser::{parse_zec_to_zat, ZecParseError, MAX_SUPPLY_ZAT};

#[test]
fn parses_integer_amount() {
    assert_eq!(parse_zec_to_zat("10").unwrap(), 1_000_000_000);
}

#[test]
fn parses_decimal_amount() {
    assert_eq!(parse_zec_to_zat("1.5").unwrap(), 150_000_000);
}

#[test]
fn parses_min_unit() {
    assert_eq!(parse_zec_to_zat("0.00000001").unwrap(), 1);
}

#[test]
fn parses_leading_dot() {
    assert_eq!(parse_zec_to_zat(".5").unwrap(), 50_000_000);
}

#[test]
fn parses_trailing_dot() {
    assert_eq!(parse_zec_to_zat("1.").unwrap(), 100_000_000);
}

#[test]
fn rejects_too_many_decimals() {
    assert!(matches!(
        parse_zec_to_zat("0.000000001"),
        Err(ZecParseError::TooManyDecimals)
    ));
}

#[test]
fn rejects_signs() {
    assert!(parse_zec_to_zat("-1").is_err());
    assert!(parse_zec_to_zat("+1").is_err());
}

#[test]
fn rejects_invalid_chars() {
    assert!(parse_zec_to_zat("1,0").is_err());
    assert!(parse_zec_to_zat("abc").is_err());
}

#[test]
fn accepts_max_supply() {
    assert_eq!(parse_zec_to_zat("21000000").unwrap(), MAX_SUPPLY_ZAT);
}

#[test]
fn rejects_above_max_supply() {
    assert!(matches!(
        parse_zec_to_zat("21000001"),
        Err(ZecParseError::ExceedsMaximum)
    ));
}

#[test]
fn accepts_zero() {
    assert_eq!(parse_zec_to_zat("0").unwrap(), 0);
}

#[test]
fn rejects_empty_and_double_dots() {
    assert!(matches!(parse_zec_to_zat("   "), Err(ZecParseError::Empty)));
    assert!(matches!(
        parse_zec_to_zat("1.2.3"),
        Err(ZecParseError::MultipleDecimalPoints)
    ));
}
