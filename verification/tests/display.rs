use laminar::output::{format_zat_as_zec, truncate_address};

#[test]
fn truncate_short_address_is_unchanged() {
    assert_eq!(truncate_address("u1abc"), "u1abc");
}

#[test]
fn truncate_long_ascii_address() {
    assert_eq!(truncate_address("u1abcdefghijklmnop"), "u1abcd...mnop");
}

#[test]
fn truncate_long_unicode_address_without_panic() {
    let han = "\u{4F60}";
    assert_eq!(
        truncate_address(&format!(
            "u1{han}{han}{han}{han}{han}{han}{han}{han}{han}{han}{han}{han}{han}{han}"
        )),
        format!("u1{han}{han}{han}{han}...{han}{han}{han}{han}")
    );
}

#[test]
fn formats_with_at_least_two_decimals() {
    assert_eq!(format_zat_as_zec(100_000_000), "1.00 ZEC");
    assert_eq!(format_zat_as_zec(150_000_000), "1.50 ZEC");
    assert_eq!(format_zat_as_zec(1), "0.00000001 ZEC");
    assert_eq!(format_zat_as_zec(0), "0.00 ZEC");
    assert_eq!(format_zat_as_zec(123_456_789), "1.23456789 ZEC");
}
