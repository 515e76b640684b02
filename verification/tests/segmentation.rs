use laminar::batch::{segment_batch, segment_recipients};
use laminar::error::LaminarError;
use laminar::types::{Network, Recipient, Zatoshi, ZATOSHI_MAX};
use laminar::validation::{RecipientAddressType, ValidatedBatch, ValidatedRecipient};

const MAINNET_TADDR: &str = "t1Hsc1LR8yKnbbe3twRp88p6vFfC5t7DLbs";

fn taxonomy_code(err: &LaminarError) -> Option<u16> {
    match err {
        LaminarError::Taxonomy(t) => Some(t.code()),
        LaminarError::BatchValidation(batch) => {
            batch.issues.first().map(|issue| issue.code.code())
        }
        _ => None,
    }
}

fn recipient(index: usize) -> ValidatedRecipient {
    ValidatedRecipient {
        row_number: index + 1,
        address_type: RecipientAddressType::Transparent,
        recipient: Recipient {
            address: MAINNET_TADDR.to_string(),
            amount: Zatoshi::new(1).unwrap(),
            memo: Some(format!("memo-{index}")),
            label: None,
        },
    }
}

fn batch_with_count(count: usize) -> ValidatedBatch {
    let recipients: Vec<_> = (0..count).map(recipient).collect();
    let mut total = recipients[0].recipient.amount;
    for validated in recipients.iter().skip(1) {
        total = total.checked_add(validated.recipient.amount).unwrap();
    }

    ValidatedBatch {
        recipients,
        total,
        network: Network::Mainnet,
        warnings: Vec::new(),
    }
}

#[test]
fn segmentation_splits_large_batches() {
    let batch = batch_with_count(100);
    let segmented = segment_batch(&batch, 350).unwrap();
    assert!(segmented.segments.len() > 1);

    let recipient_count: usize = segmented
        .segments
        .iter()
        .map(|segment| segment.recipients.len())
        .sum();
    assert_eq!(recipient_count, 100);
    assert!(segmented
        .segments
        .iter()
        .all(|segment| segment.payload_bytes <= 350));
}

#[test]
fn segmentation_rejects_zero_payload_limit() {
    let batch = batch_with_count(1);
    let err = segment_batch(&batch, 0).unwrap_err();
    assert_eq!(taxonomy_code(&err), Some(1005));
}

#[test]
fn segmentation_rejects_empty_batch() {
    let empty_batch = ValidatedBatch {
        recipients: Vec::new(),
        total: Zatoshi::new(1).unwrap(),
        network: Network::Mainnet,
        warnings: Vec::new(),
    };
    let err = segment_batch(&empty_batch, 256).unwrap_err();
    assert_eq!(taxonomy_code(&err), Some(1012));
}

#[test]
fn segmentation_rejects_single_recipient_that_exceeds_limit() {
    let row = ValidatedRecipient {
        row_number: 1,
        address_type: RecipientAddressType::Transparent,
        recipient: Recipient {
            address: MAINNET_TADDR.to_string(),
            amount: Zatoshi::new(1).unwrap(),
            memo: Some("x".repeat(400)),
            label: None,
        },
    };
    let batch = ValidatedBatch {
        recipients: vec![row],
        total: Zatoshi::new(1).unwrap(),
        network: Network::Mainnet,
        warnings: Vec::new(),
    };
    let err = segment_batch(&batch, 80).unwrap_err();
    assert_eq!(taxonomy_code(&err), Some(1010));
}

#[test]
fn segmentation_rejects_when_rollover_recipient_alone_exceeds_limit() {
    let first = ValidatedRecipient {
        row_number: 1,
        address_type: RecipientAddressType::Transparent,
        recipient: Recipient {
            address: MAINNET_TADDR.to_string(),
            amount: Zatoshi::new(1).unwrap(),
            memo: None,
            label: None,
        },
    };
    let second = ValidatedRecipient {
        row_number: 2,
        address_type: RecipientAddressType::Transparent,
        recipient: Recipient {
            address: MAINNET_TADDR.to_string(),
            amount: Zatoshi::new(1).unwrap(),
            memo: Some("y".repeat(300)),
            label: None,
        },
    };
    let batch = ValidatedBatch {
        recipients: vec![first, second],
        total: Zatoshi::new(2).unwrap(),
        network: Network::Mainnet,
        warnings: Vec::new(),
    };
    let err = segment_batch(&batch, 120).unwrap_err();
    assert_eq!(taxonomy_code(&err), Some(1010));
}

#[test]
fn segmentation_rejects_construct_segment_overflow() {
    let recipients = vec![
        ValidatedRecipient {
            row_number: 1,
            address_type: RecipientAddressType::Transparent,
            recipient: Recipient {
                address: MAINNET_TADDR.to_string(),
                amount: Zatoshi::new(ZATOSHI_MAX).unwrap(),
                memo: None,
                label: None,
            },
        },
        ValidatedRecipient {
            row_number: 2,
            address_type: RecipientAddressType::Transparent,
            recipient: Recipient {
                address: MAINNET_TADDR.to_string(),
                amount: Zatoshi::new(1).unwrap(),
                memo: None,
                label: None,
            },
        },
    ];
    let batch = ValidatedBatch {
        recipients,
        total: Zatoshi::new(ZATOSHI_MAX).unwrap(),
        network: Network::Mainnet,
        warnings: Vec::new(),
    };
    let err = segment_batch(&batch, 10_000).unwrap_err();
    assert_eq!(taxonomy_code(&err), Some(1013));
}

#[test]
fn segment_recipients_chunks_and_rejects_zero() {
    let recipients = vec![
        Recipient {
            address: MAINNET_TADDR.to_string(),
            amount: Zatoshi::new(1).unwrap(),
            memo: None,
            label: None,
        },
        Recipient {
            address: MAINNET_TADDR.to_string(),
            amount: Zatoshi::new(2).unwrap(),
            memo: None,
            label: None,
        },
        Recipient {
            address: MAINNET_TADDR.to_string(),
            amount: Zatoshi::new(3).unwrap(),
            memo: None,
            label: None,
        },
    ];

    let chunks = segment_recipients(&recipients, 2).unwrap();
    assert_eq!(chunks.len(), 2);
    assert_eq!(chunks[0].len(), 2);
    assert_eq!(chunks[1].len(), 1);

    let err = segment_recipients(&recipients, 0).unwrap_err();
    assert_eq!(taxonomy_code(&err), Some(1005));
}

#[test]
fn segments_preserve_recipient_order() {
    let batch = batch_with_count(10);
    let segmented = segment_batch(&batch, 350).unwrap();
    let flattened: Vec<String> = segmented
        .segments
        .iter()
        .flat_map(|s| s.recipients.iter().map(|r| r.memo.clone().unwrap()))
        .collect();
    let expected: Vec<String> = (0..10).map(|i| format!("memo-{i}")).collect();
    assert_eq!(flattened, expected);
    assert_eq!(segmented.original_recipient_count, 10);
    assert_eq!(segmented.max_payload_bytes, 350);
}
