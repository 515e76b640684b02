use laminar::error::LaminarError;
use laminar::types::{BatchConfig, Network, Zatoshi, ZATOSHI_MAX};
use laminar::validation::{
    validate_address, validate_amount, validate_batch, validate_memo, BatchValidationError,
    RawRow, RecipientAddressType,
};

const MAINNET_TADDR: &str = "t1Hsc1LR8yKnbbe3twRp88p6vFfC5t7DLbs";
const MAINNET_SAPLING: &str =
    "zs1qqqqqqqqqqqqqqqqqqqqqqqqqqqqqqqqqqqqqqqqqqqqqqqqqqqqqqqqqqqqqqqqqqqqqpq6d8g";
const MAINNET_UNIFIED: &str =
    "u1qpatys4zruk99pg59gcscrt7y6akvl9vrhcfyhm9yxvxz7h87q6n8cgrzzpe9zru68uq39uhmlpp5uefxu0su5uqyqfe5zp3tycn0ecl";
const TESTNET_TADDR: &str = "tm9iMLAuYMzJ6jtFLcA7rzUmfreGuKvr7Ma";
const TESTNET_SAPLING: &str =
    "ztestsapling1qqqqqqqqqqqqqqqqqqqqqqqqqqqqqqqqqqqqqqqqqqqqqqqqqqqqqqqqqqqqqqqqqqqqqfhgwqu";
const TESTNET_UNIFIED: &str =
    "utest10c5kutapazdnf8ztl3pu43nkfsjx89fy3uuff8tsmxm6s86j37pe7uz94z5jhkl49pqe8yz75rlsaygexk6jpaxwx0esjr8wm5ut7d5s";

fn config() -> BatchConfig {
    BatchConfig {
        network: Network::Mainnet,
        max_recipients: 500,
        source_file: "batch.csv".to_string(),
    }
}

fn err_issues(err: BatchValidationError) -> Vec<(u16, Option<usize>, Option<String>)> {
    err.issues
        .into_iter()
        .map(|issue| (issue.code.code(), issue.row_number, issue.column))
        .collect()
}

fn laminar_taxonomy_codes(err: LaminarError) -> Vec<u16> {
    match err {
        LaminarError::Taxonomy(taxonomy) => vec![taxonomy.code()],
        LaminarError::BatchValidation(batch) => batch
            .issues
            .into_iter()
            .map(|issue| issue.code.code())
            .collect(),
        _ => Vec::new(),
    }
}

#[test]
fn all_valid_rows_succeed() {
    let rows = vec![
        RawRow {
            row_number: 1,
            address: MAINNET_TADDR.to_string(),
            amount_zec: Some("1.5".to_string()),
            amount_zatoshis: None,
            memo: Some("ok".to_string()),
            label: Some("alice".to_string()),
        },
        RawRow {
            row_number: 2,
            address: MAINNET_SAPLING.to_string(),
            amount_zec: None,
            amount_zatoshis: Some("1000".to_string()),
            memo: None,
            label: None,
        },
        RawRow {
            row_number: 3,
            address: MAINNET_UNIFIED.to_string(),
            amount_zec: Some("0.00000001".to_string()),
            amount_zatoshis: None,
            memo: None,
            label: None,
        },
    ];

    let batch = validate_batch(rows, &config()).unwrap();
    assert_eq!(batch.recipients.len(), 3);
    assert_eq!(batch.total.as_u64(), 150_001_001);
}

#[test]
fn one_invalid_row_rejects_entire_batch() {
    let rows = vec![
        RawRow {
            row_number: 1,
            address: MAINNET_TADDR.to_string(),
            amount_zec: Some("1".to_string()),
            amount_zatoshis: None,
            memo: None,
            label: None,
        },
        RawRow {
            row_number: 2,
            address: "not-an-address".to_string(),
            amount_zec: Some("1".to_string()),
            amount_zatoshis: None,
            memo: None,
            label: None,
        },
    ];

    let err = validate_batch(rows, &config()).unwrap_err();
    match err {
        LaminarError::BatchValidation(batch_err) => {
            let issues = err_issues(batch_err);
            assert!(issues
                .iter()
                .any(|(code, row, _)| *code == 1001 && *row == Some(2)));
        }
        other => panic!("expected batch validation error, got {other:?}"),
    }
}

#[test]
fn rejected_row_names_the_address_column() {
    let rows = vec![RawRow {
        row_number: 7,
        address: "not-an-address".to_string(),
        amount_zec: Some("1".to_string()),
        amount_zatoshis: None,
        memo: None,
        label: None,
    }];
    let err = validate_batch(rows, &config()).unwrap_err();
    match err {
        LaminarError::BatchValidation(batch_err) => {
            let issues = err_issues(batch_err);
            assert_eq!(issues.len(), 1);
            assert_eq!(issues[0].0, 1001);
            assert_eq!(issues[0].1, Some(7));
            assert_eq!(issues[0].2.as_deref(), Some("address"));
        }
        other => panic!("expected batch validation error, got {other:?}"),
    }
}

#[test]
fn collects_all_errors_across_rows() {
    let rows = vec![
        RawRow {
            row_number: 1,
            address: "not-an-address".to_string(),
            amount_zec: Some("abc".to_string()),
            amount_zatoshis: None,
            memo: Some("x".repeat(513)),
            label: None,
        },
        RawRow {
            row_number: 2,
            address: "".to_string(),
            amount_zec: None,
            amount_zatoshis: None,
            memo: Some("x".repeat(600)),
            label: None,
        },
    ];

    let err = validate_batch(rows, &config()).unwrap_err();
    match err {
        LaminarError::BatchValidation(batch_err) => {
            assert!(batch_err.issues.len() >= 5);
            assert!(batch_err.issues.iter().any(|issue| issue.code.code() == 1001));
            assert!(batch_err.issues.iter().any(|issue| issue.code.code() == 1002));
            assert!(batch_err.issues.iter().any(|issue| issue.code.code() == 1004));
        }
        other => panic!("expected batch validation error, got {other:?}"),
    }
}

#[test]
fn duplicate_addresses_produce_warning_not_error() {
    let rows = vec![
        RawRow {
            row_number: 1,
            address: MAINNET_TADDR.to_string(),
            amount_zec: Some("1".to_string()),
            amount_zatoshis: None,
            memo: None,
            label: None,
        },
        RawRow {
            row_number: 2,
            address: MAINNET_TADDR.to_string(),
            amount_zec: Some("2".to_string()),
            amount_zatoshis: None,
            memo: None,
            label: None,
        },
    ];

    let batch = validate_batch(rows, &config()).unwrap();
    assert_eq!(batch.warnings.len(), 1);
    assert!(batch.warnings[0].contains("duplicate address"));
}

#[test]
fn overflow_detected_with_1013() {
    let rows = vec![
        RawRow {
            row_number: 1,
            address: MAINNET_TADDR.to_string(),
            amount_zec: None,
            amount_zatoshis: Some(ZATOSHI_MAX.to_string()),
            memo: None,
            label: None,
        },
        RawRow {
            row_number: 2,
            address: MAINNET_SAPLING.to_string(),
            amount_zec: None,
            amount_zatoshis: Some("1".to_string()),
            memo: None,
            label: None,
        },
    ];

    let err = validate_batch(rows, &config()).unwrap_err();
    match err {
        LaminarError::BatchValidation(batch_err) => {
            assert!(batch_err.issues.iter().any(|issue| issue.code.code() == 1013));
        }
        other => panic!("expected batch validation error, got {other:?}"),
    }
}

#[test]
fn memo_512_valid_memo_513_invalid_1004() {
    let rows_ok = vec![RawRow {
        row_number: 1,
        address: MAINNET_TADDR.to_string(),
        amount_zec: Some("1".to_string()),
        amount_zatoshis: None,
        memo: Some("a".repeat(512)),
        label: None,
    }];
    assert!(validate_batch(rows_ok, &config()).is_ok());

    let rows_bad = vec![RawRow {
        row_number: 1,
        address: MAINNET_TADDR.to_string(),
        amount_zec: Some("1".to_string()),
        amount_zatoshis: None,
        memo: Some("a".repeat(513)),
        label: None,
    }];
    let err = validate_batch(rows_bad, &config()).unwrap_err();
    match err {
        LaminarError::BatchValidation(batch_err) => {
            assert!(batch_err.issues.iter().any(|issue| issue.code.code() == 1004));
        }
        other => panic!("expected batch validation error, got {other:?}"),
    }
}

#[test]
fn helper_functions_cover_success_and_failure_paths() {
    let address_type = validate_address(MAINNET_TADDR, Network::Mainnet).unwrap();
    assert_eq!(address_type, RecipientAddressType::Transparent);

    let mismatch = validate_address(TESTNET_TADDR, Network::Mainnet).unwrap_err();
    assert!(laminar_taxonomy_codes(mismatch).contains(&1005));

    assert!(validate_amount(Zatoshi::new(1).unwrap()).is_ok());
    assert!(validate_memo(None).is_ok());
    assert!(validate_memo(Some("ok")).is_ok());
    let memo_err = validate_memo(Some(&"x".repeat(513))).unwrap_err();
    assert!(laminar_taxonomy_codes(memo_err).contains(&1004));
}

#[test]
fn empty_rows_and_recipient_limit_are_rejected() {
    let empty_err = validate_batch(Vec::new(), &config()).unwrap_err();
    assert!(laminar_taxonomy_codes(empty_err).contains(&1012));

    let small_limit = BatchConfig {
        network: Network::Mainnet,
        max_recipients: 1,
        source_file: "batch.csv".to_string(),
    };
    let rows = vec![
        RawRow {
            row_number: 1,
            address: MAINNET_TADDR.to_string(),
            amount_zec: Some("1".to_string()),
            amount_zatoshis: None,
            memo: None,
            label: None,
        },
        RawRow {
            row_number: 2,
            address: MAINNET_TADDR.to_string(),
            amount_zec: Some("1".to_string()),
            amount_zatoshis: None,
            memo: None,
            label: None,
        },
    ];
    let limit_err = validate_batch(rows, &small_limit).unwrap_err();
    assert!(laminar_taxonomy_codes(limit_err).contains(&1011));
}

#[test]
fn invalid_zatoshi_strings_are_rejected() {
    let rows = vec![
        RawRow {
            row_number: 1,
            address: MAINNET_TADDR.to_string(),
            amount_zec: None,
            amount_zatoshis: Some("-1".to_string()),
            memo: None,
            label: None,
        },
        RawRow {
            row_number: 2,
            address: MAINNET_TADDR.to_string(),
            amount_zec: None,
            amount_zatoshis: Some("abc".to_string()),
            memo: None,
            label: None,
        },
    ];
    let err = validate_batch(rows, &config()).unwrap_err();
    let codes = laminar_taxonomy_codes(err);
    assert!(codes.iter().all(|code| *code == 1002));
}

#[test]
fn testnet_addresses_validate_under_testnet_config() {
    let config = BatchConfig {
        network: Network::Testnet,
        max_recipients: 500,
        source_file: "batch.csv".to_string(),
    };
    let rows = vec![
        RawRow {
            row_number: 1,
            address: TESTNET_TADDR.to_string(),
            amount_zec: Some("0.1".to_string()),
            amount_zatoshis: None,
            memo: None,
            label: None,
        },
        RawRow {
            row_number: 2,
            address: TESTNET_SAPLING.to_string(),
            amount_zec: Some("0.2".to_string()),
            amount_zatoshis: None,
            memo: None,
            label: None,
        },
        RawRow {
            row_number: 3,
            address: TESTNET_UNIFIED.to_string(),
            amount_zec: Some("0.3".to_string()),
            amount_zatoshis: None,
            memo: None,
            label: None,
        },
    ];
    let validated = validate_batch(rows, &config).unwrap();
    assert_eq!(validated.recipients.len(), 3);
    assert_eq!(validated.network, Network::Testnet);
}

#[test]
fn mixed_network_addresses_fail_validation() {
    let rows = vec![
        RawRow {
            row_number: 1,
            address: MAINNET_TADDR.to_string(),
            amount_zec: Some("1".to_string()),
            amount_zatoshis: None,
            memo: None,
            label: None,
        },
        RawRow {
            row_number: 2,
            address: TESTNET_TADDR.to_string(),
            amount_zec: Some("1".to_string()),
            amount_zatoshis: None,
            memo: None,
            label: None,
        },
    ];
    let err = validate_batch(rows, &config()).unwrap_err();
    assert!(laminar_taxonomy_codes(err).contains(&1005));
}

#[test]
fn transparent_memo_is_dropped_with_warning() {
    let rows = vec![RawRow {
        row_number: 1,
        address: MAINNET_TADDR.to_string(),
        amount_zec: Some("1".to_string()),
        amount_zatoshis: None,
        memo: Some("should-not-be-on-transparent".to_string()),
        label: None,
    }];

    let validated = validate_batch(rows, &config()).unwrap();
    assert_eq!(validated.recipients.len(), 1);
    assert_eq!(validated.recipients[0].recipient.memo, None);
    assert!(validated
        .warnings
        .iter()
        .any(|warning| warning.contains("memo ignored for transparent address")));
}

#[test]
fn duplicate_warning_names_both_rows() {
    let rows = vec![
        RawRow {
            row_number: 1,
            address: MAINNET_TADDR.to_string(),
            amount_zec: Some("1".to_string()),
            amount_zatoshis: None,
            memo: None,
            label: None,
        },
        RawRow {
            row_number: 2,
            address: MAINNET_TADDR.to_string(),
            amount_zec: Some("2".to_string()),
            amount_zatoshis: None,
            memo: None,
            label: None,
        },
    ];
    let batch = validate_batch(rows, &config()).unwrap();
    assert_eq!(
        batch.warnings,
        vec!["duplicate address at row 2 (first seen at row 1)".to_string()]
    );
}

#[test]
fn sapling_memo_is_kept() {
    let rows = vec![RawRow {
        row_number: 1,
        address: MAINNET_SAPLING.to_string(),
        amount_zec: Some("1".to_string()),
        amount_zatoshis: None,
        memo: Some("kept".to_string()),
        label: None,
    }];
    let validated = validate_batch(rows, &config()).unwrap();
    assert_eq!(validated.recipients[0].recipient.memo.as_deref(), Some("kept"));
    assert!(validated.warnings.is_empty());
}
