use laminar::error::AmountError;
use laminar::types::{Zatoshi, ZatoshiString, ZATOSHI_MAX, ZATOSHI_MIN, ZATOSHI_PER_ZEC};

#[test]
fn zatoshi_creation_valid_values() {
    assert_eq!(Zatoshi::new(1).unwrap().as_u64(), 1);
    assert_eq!(Zatoshi::new(100_000_000).unwrap().as_u64(), 100_000_000);
    assert_eq!(Zatoshi::new(ZATOSHI_MAX).unwrap().as_u64(), ZATOSHI_MAX);
}

#[test]
fn zatoshi_creation_invalid_values() {
    assert!(matches!(Zatoshi::new(0), Err(AmountError::BelowMinimum)));
    assert!(matches!(
        Zatoshi::new(ZATOSHI_MAX + 1),
        Err(AmountError::AboveMaximum { value }) if value == ZATOSHI_MAX + 1
    ));
}

#[test]
fn parses_valid_zec_strings() {
    assert_eq!(Zatoshi::from_zec_str("1").unwrap().as_u64(), 100_000_000);
    assert_eq!(Zatoshi::from_zec_str("1.0").unwrap().as_u64(), 100_000_000);
    assert_eq!(Zatoshi::from_zec_str("1.5").unwrap().as_u64(), 150_000_000);
    assert_eq!(Zatoshi::from_zec_str("0.00000001").unwrap().as_u64(), 1);
    assert_eq!(
        Zatoshi::from_zec_str("1.12345678").unwrap().as_u64(),
        112_345_678
    );
    assert_eq!(
        Zatoshi::from_zec_str("21000000").unwrap().as_u64(),
        ZATOSHI_MAX
    );
}

#[test]
fn rejects_invalid_zec_strings() {
    assert!(matches!(
        Zatoshi::from_zec_str("0.123456789"),
        Err(AmountError::TooManyDecimals { .. })
    ));
    assert!(matches!(
        Zatoshi::from_zec_str("-1"),
        Err(AmountError::NegativeNotAllowed)
    ));
    assert!(matches!(
        Zatoshi::from_zec_str(""),
        Err(AmountError::EmptyInput)
    ));
    assert!(matches!(
        Zatoshi::from_zec_str("abc"),
        Err(AmountError::InvalidNumeric)
    ));
    assert!(matches!(
        Zatoshi::from_zec_str("21000000.00000001"),
        Err(AmountError::AboveMaximum { .. })
    ));
}

#[test]
fn formats_zec_strings_without_trailing_zeros() {
    let one = Zatoshi::new(ZATOSHI_PER_ZEC).unwrap();
    let one_and_half = Zatoshi::new(150_000_000).unwrap();
    let min = Zatoshi::new(ZATOSHI_MIN).unwrap();

    assert_eq!(one.to_zec_string(), "1");
    assert_eq!(one_and_half.to_zec_string(), "1.5");
    assert_eq!(min.to_zec_string(), "0.00000001");
}

#[test]
fn roundtrip_from_zec_string_to_zatoshi() {
    for value in 1_u64..=200_000_u64 {
        let z = Zatoshi::new(value).unwrap();
        let reparsed = Zatoshi::from_zec_str(&z.to_zec_string()).unwrap();
        assert_eq!(reparsed, z);
    }

    let near_max_start = ZATOSHI_MAX - 200_000;
    for value in near_max_start..=ZATOSHI_MAX {
        let z = Zatoshi::new(value).unwrap();
        let reparsed = Zatoshi::from_zec_str(&z.to_zec_string()).unwrap();
        assert_eq!(reparsed, z);
    }
}

#[test]
fn checked_add_reports_overflow_or_range_error() {
    let max = Zatoshi::new(ZATOSHI_MAX).unwrap();
    let one = Zatoshi::new(1).unwrap();
    assert!(matches!(
        max.checked_add(one),
        Err(AmountError::AboveMaximum { value }) if value == ZATOSHI_MAX + 1
    ));
}

#[test]
fn zatoshi_string_validates_integer_pattern() {
    assert!(ZatoshiString::new("0").is_ok());
    assert!(ZatoshiString::new("1").is_ok());
    assert!(ZatoshiString::new("123456").is_ok());
    assert!(ZatoshiString::new("01").is_err());
    assert!(ZatoshiString::new("-1").is_err());
    assert!(ZatoshiString::new("1.0").is_err());
    assert!(ZatoshiString::new("").is_err());
}

#[test]
fn zatoshi_string_converts_to_and_from_zatoshi() {
    let z = Zatoshi::new(150_000_000).unwrap();
    let z_str = ZatoshiString::from(z);
    assert_eq!(z_str.as_str(), "150000000");

    let parsed = Zatoshi::try_from(&z_str).unwrap();
    assert_eq!(parsed, z);
}

#[test]
fn parse_accepts_surrounding_whitespace() {
    assert_eq!(Zatoshi::from_zec_str("  2.5\t").unwrap().as_u64(), 250_000_000);
}

#[test]
fn parse_rejects_two_decimal_points() {
    assert!(matches!(
        Zatoshi::from_zec_str("1.2.3"),
        Err(AmountError::InvalidFormat)
    ));
    assert!(matches!(
        Zatoshi::from_zec_str(".5"),
        Err(AmountError::InvalidFormat)
    ));
}
