use laminar::receipt::{default_receipt_filename, generate_receipt};
use laminar::types::{Network, Recipient, TransactionIntent, Zatoshi};
use laminar::validation::{RecipientAddressType, ValidatedBatch, ValidatedRecipient};
use laminar::zip321::construct_zip321;

const MAINNET_TADDR: &str = "t1Hsc1LR8yKnbbe3twRp88p6vFfC5t7DLbs";

fn sample_intent() -> TransactionIntent {
    let recipients = vec![
        ValidatedRecipient {
            row_number: 1,
            address_type: RecipientAddressType::Transparent,
            recipient: Recipient {
                address: MAINNET_TADDR.to_string(),
                amount: Zatoshi::new(125_000_000).unwrap(),
                memo: Some("coffee".to_string()),
                label: Some("alice".to_string()),
            },
        },
        ValidatedRecipient {
            row_number: 2,
            address_type: RecipientAddressType::Transparent,
            recipient: Recipient {
                address: MAINNET_TADDR.to_string(),
                amount: Zatoshi::new(50_000_000).unwrap(),
                memo: None,
                label: Some("bob".to_string()),
            },
        },
    ];

    let total = recipients[0]
        .recipient
        .amount
        .checked_add(recipients[1].recipient.amount)
        .unwrap();
    let batch = ValidatedBatch {
        recipients,
        total,
        network: Network::Mainnet,
        warnings: Vec::new(),
    };
    construct_zip321(&batch).unwrap()
}

#[test]
fn filename_format_is_correct() {
    let intent = sample_intent();
    let receipt = generate_receipt(&intent, 1);
    let filename = default_receipt_filename(&receipt);
    let expected = format!(
        "laminar-receipt-{}-{}.json",
        &receipt.timestamp[..10],
        &receipt.batch_id[..8]
    );
    assert_eq!(filename, expected);
}

#[test]
fn amounts_match_exactly() {
    let intent = sample_intent();
    let receipt = generate_receipt(&intent, 2);

    assert_eq!(receipt.total_zatoshis, intent.total_zat.as_u64());
    assert_eq!(receipt.total_zec, intent.total_zat.to_zec_string());
    assert_eq!(receipt.recipients.len(), intent.recipients.len());

    for (receipt_recipient, intent_recipient) in
        receipt.recipients.iter().zip(&intent.recipients)
    {
        assert_eq!(
            receipt_recipient.amount_zatoshis,
            intent_recipient.amount.as_u64()
        );
        assert_eq!(
            receipt_recipient.amount_zec,
            intent_recipient.amount.to_zec_string()
        );
        assert_eq!(receipt_recipient.memo, intent_recipient.memo);
        assert_eq!(receipt_recipient.label, intent_recipient.label);
    }
}

#[test]
fn payload_hash_is_consistent() {
    let intent = sample_intent();
    let receipt = generate_receipt(&intent, 1);
    assert_eq!(receipt.zip321_payload_hash, intent.payload_hash);
    assert!(receipt.zip321_payload_hash.starts_with("sha256:"));
}

#[test]
fn receipt_counts_recipients_and_segments() {
    let intent = sample_intent();
    let receipt = generate_receipt(&intent, 3);
    assert_eq!(receipt.recipient_count, 2);
    assert_eq!(receipt.segments, 3);
    assert_eq!(receipt.timestamp, intent.created_at);
    assert_eq!(receipt.batch_id, intent.id);
    assert_eq!(receipt.network, intent.network);
}
