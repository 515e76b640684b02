use std::collections::HashSet;

use laminar::error::{AmountError, TaxonomyCode, TaxonomyError};
use laminar::envelope::ErrorCode;
use laminar::types::{Zatoshi, ZATOSHI_MAX, ZATOSHI_PER_ZEC};

#[test]
fn taxonomy_codes_cover_required_ranges_and_are_unique() {
    let all = TaxonomyCode::all();
    assert_eq!(all.len(), 28);

    let unique: HashSet<u16> = all.iter().map(|code| code.code()).collect();
    assert_eq!(unique.len(), all.len());

    for code in all {
        let numeric = code.code();
        let in_expected_range = (1001..=1013).contains(&numeric)
            || (2001..=2005).contains(&numeric)
            || (3001..=3003).contains(&numeric)
            || (5003..=5008).contains(&numeric)
            || numeric == 9999;
        assert!(in_expected_range, "unexpected taxonomy code: {numeric}");
        assert!(!code.name().is_empty());
    }
}

#[test]
fn taxonomy_error_display_contains_code_and_name() {
    let err = TaxonomyError::new(TaxonomyCode::Validation1001, "example".to_string());
    let rendered = err.render();
    assert!(rendered.contains("1001"));
    assert!(rendered.contains("VALIDATION_1001"));
    assert!(rendered.contains("example"));
}

#[test]
fn amount_error_codes_and_names_cover_all_variants() {
    let variants = vec![
        AmountError::BelowMinimum,
        AmountError::AboveMaximum { value: 42 },
        AmountError::EmptyInput,
        AmountError::NegativeNotAllowed,
        AmountError::InvalidFormat,
        AmountError::InvalidNumeric,
        AmountError::TooManyDecimals { decimals: 9 },
        AmountError::Overflow,
        AmountError::InvalidZatoshiString {
            value: "abc".to_string(),
        },
    ];

    for variant in variants {
        assert!((1001..=1009).contains(&variant.code()));
        assert!(!variant.name().is_empty());
        assert!(!variant.render().is_empty());
    }
}

#[test]
fn zatoshi_constants_are_correct() {
    assert_eq!(ZATOSHI_PER_ZEC, 100_000_000);
    assert_eq!(ZATOSHI_MAX, 21_000_000 * ZATOSHI_PER_ZEC);
}

#[test]
fn error_code_formatting() {
    assert_eq!(ErrorCode::InvalidAddressFormat.code_string(), "E001");
    assert_eq!(ErrorCode::MissingRequiredArgument.code_string(), "E010");
    assert_eq!(ErrorCode::ConfirmationRequired.code_string(), "E011");
}

#[test]
fn warning_code_formatting() {
    assert_eq!(
        laminar::envelope::WarningCode::DuplicateAddress.code_string(),
        "W001"
    );
}

#[test]
fn modules_are_linked() {
    let value = Zatoshi::from_zec_str("1").expect("valid amount");
    assert_eq!(value.as_u64(), ZATOSHI_PER_ZEC);
}

#[test]
fn laminar_error_taxonomy_helper_preserves_code_and_message() {
    let err = laminar::LaminarError::taxonomy(TaxonomyCode::Cli2001, "bad config");
    match err {
        laminar::LaminarError::Taxonomy(taxonomy) => {
            assert_eq!(taxonomy.code(), 2001);
            assert_eq!(taxonomy.name(), "CLI_2001");
            assert_eq!(taxonomy.message, "bad config");
        }
        other => panic!("expected taxonomy error, got {other:?}"),
    }
}
