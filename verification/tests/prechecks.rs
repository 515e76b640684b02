use laminar::precheck::{validate_address, validate_memo, AddressValidationError, MAX_MEMO_BYTES};
use laminar::types::Network;

#[test]
fn address_prefix_accepts_u1() {
    assert!(validate_address("u1abc", Network::Mainnet).is_ok());
}

#[test]
fn address_prefix_accepts_t1() {
    assert!(validate_address("t1abc", Network::Mainnet).is_ok());
}

#[test]
fn address_prefix_accepts_utest1_on_testnet() {
    assert!(validate_address("utest1abc", Network::Testnet).is_ok());
}

#[test]
fn address_prefix_accepts_tm_on_testnet() {
    assert!(validate_address("tmabc", Network::Testnet).is_ok());
}

#[test]
fn address_rejects_other_prefix() {
    assert!(matches!(
        validate_address("x1abc", Network::Mainnet),
        Err(AddressValidationError::InvalidPrefix)
    ));
}

#[test]
fn address_rejects_network_mismatch() {
    assert!(matches!(
        validate_address("u1abc", Network::Testnet),
        Err(AddressValidationError::NetworkMismatch { .. })
    ));
}

#[test]
fn address_rejects_non_ascii_characters() {
    let han = "\u{4F60}";
    assert!(matches!(
        validate_address(&format!("u1{han}{han}{han}"), Network::Mainnet),
        Err(AddressValidationError::InvalidCharacters)
    ));
}

#[test]
fn address_rejects_empty() {
    assert!(matches!(
        validate_address("   ", Network::Mainnet),
        Err(AddressValidationError::Empty)
    ));
}

#[test]
fn memo_allows_empty() {
    assert!(validate_memo("").is_ok());
}

#[test]
fn memo_allows_512_bytes_ascii() {
    let memo = "a".repeat(MAX_MEMO_BYTES);
    assert!(validate_memo(&memo).is_ok());
}

#[test]
fn memo_rejects_513_bytes_ascii() {
    let memo = "a".repeat(MAX_MEMO_BYTES + 1);
    assert!(validate_memo(&memo).is_err());
}

#[test]
fn memo_allows_512_bytes_utf8() {
    let memo = "\u{1F600}".repeat(128);
    assert_eq!(memo.as_bytes().len(), MAX_MEMO_BYTES);
    assert!(validate_memo(&memo).is_ok());
}

#[test]
fn memo_rejects_513_bytes_utf8() {
    let memo = "\u{1F600}".repeat(129);
    assert!(memo.as_bytes().len() > MAX_MEMO_BYTES);
    assert!(validate_memo(&memo).is_err());
}
