use laminar::types::{Network, Recipient, Zatoshi};
use laminar::validation::{RecipientAddressType, ValidatedBatch, ValidatedRecipient};
use laminar::zip321::{base64_encode, build_payment_request, build_zip321_uri, construct_zip321};

const ADDR1: &str = "t1Hsc1LR8yKnbbe3twRp88p6vFfC5t7DLbs";
const ADDR2: &str =
    "zs1qqqqqqqqqqqqqqqqqqqqqqqqqqqqqqqqqqqqqqqqqqqqqqqqqqqqqqqqqqqqqqqqqqqqqpq6d8g";

fn vr(row_number: usize, address: &str, amount_zat: u64, memo: Option<&str>) -> ValidatedRecipient {
    ValidatedRecipient {
        row_number,
        address_type: RecipientAddressType::Transparent,
        recipient: Recipient {
            address: address.to_string(),
            amount: Zatoshi::new(amount_zat).unwrap(),
            memo: memo.map(ToOwned::to_owned),
            label: None,
        },
    }
}

fn batch(recipients: Vec<ValidatedRecipient>) -> ValidatedBatch {
    let mut total = recipients[0].recipient.amount;
    for validated in recipients.iter().skip(1) {
        total = total.checked_add(validated.recipient.amount).unwrap();
    }

    ValidatedBatch {
        recipients,
        total,
        network: Network::Mainnet,
        warnings: Vec::new(),
    }
}

#[test]
fn single_recipient_uri_exact() {
    let recipients = vec![vr(1, ADDR1, 150_000_000, Some("hello"))];
    let uri = build_zip321_uri(&recipients);
    assert_eq!(
        uri,
        "zcash:t1Hsc1LR8yKnbbe3twRp88p6vFfC5t7DLbs?amount=1.5&memo=aGVsbG8="
    );
}

#[test]
fn multi_recipient_uri_param_index_format() {
    let recipients = vec![
        vr(1, ADDR1, 100_000_000, Some("a")),
        vr(2, ADDR2, 1, Some("b")),
    ];
    let uri = build_zip321_uri(&recipients);
    assert_eq!(
        uri,
        "zcash:?address=t1Hsc1LR8yKnbbe3twRp88p6vFfC5t7DLbs&amount=1&memo=YQ==&address.1=zs1qqqqqqqqqqqqqqqqqqqqqqqqqqqqqqqqqqqqqqqqqqqqqqqqqqqqqqqqqqqqqqqqqqqqqpq6d8g&amount.1=0.00000001&memo.1=Yg=="
    );
}

#[test]
fn memo_base64_uses_standard_alphabet() {
    let encoded = base64_encode(&[0xfb, 0xff, 0xff]);
    assert_eq!(encoded, "+///");
}

#[test]
fn memo_base64_keeps_padding() {
    let encoded = base64_encode(b"a");
    assert_eq!(encoded, "YQ==");
}

#[test]
fn construct_is_deterministic_across_100_runs() {
    let batch = batch(vec![
        vr(1, ADDR1, 100_000_000, Some("memo-one")),
        vr(2, ADDR2, 250_000_000, Some("memo-two")),
    ]);

    let first = construct_zip321(&batch).unwrap();
    for _ in 0..100 {
        let next = construct_zip321(&batch).unwrap();
        assert_eq!(next.zip321_uri, first.zip321_uri);
        assert_eq!(next.payload_bytes, first.payload_bytes);
        assert_eq!(next.payload_hash, first.payload_hash);
        assert_eq!(next.id, first.id);
        assert_eq!(next.created_at, first.created_at);
        assert_eq!(next.total_zat, first.total_zat);
    }
}

#[test]
fn edge_max_memo_and_empty_memo_behavior() {
    let max_memo = "x".repeat(512);
    let recipients = vec![vr(1, ADDR1, 1, Some(&max_memo)), vr(2, ADDR2, 1, Some(""))];
    let uri = build_zip321_uri(&recipients);
    assert!(uri.contains("memo="));
    assert!(!uri.contains("memo.1="));
}

#[test]
fn intent_fields_are_well_formed() {
    let batch = batch(vec![vr(1, ADDR1, 150_000_000, Some("hello"))]);
    let intent = construct_zip321(&batch).unwrap();
    assert_eq!(intent.schema_version, "1.0");
    assert_eq!(
        intent.zip321_uri,
        "zcash:t1Hsc1LR8yKnbbe3twRp88p6vFfC5t7DLbs?amount=1.5&memo=aGVsbG8="
    );
    assert_eq!(intent.payload_bytes, intent.zip321_uri.len());
    assert!(intent.payload_hash.starts_with("sha256:"));
    assert_eq!(intent.payload_hash.len(), "sha256:".len() + 64);
    assert!(intent
        .payload_hash["sha256:".len()..]
        .chars()
        .all(|c| c.is_ascii_hexdigit() && !c.is_ascii_uppercase()));
    assert_eq!(intent.id.len(), 36);
    assert_eq!(intent.created_at.len(), 20);
    assert!(intent.created_at.ends_with('Z'));
    assert_eq!(intent.total_zat.as_u64(), 150_000_000);
    assert_eq!(
        build_payment_request(&intent).unwrap(),
        intent.zip321_uri
    );
}

#[test]
fn construct_rejects_empty_batch() {
    let empty = ValidatedBatch {
        recipients: Vec::new(),
        total: Zatoshi::new(1).unwrap(),
        network: Network::Mainnet,
        warnings: Vec::new(),
    };
    let err = construct_zip321(&empty).unwrap_err();
    match err {
        laminar::error::LaminarError::Taxonomy(t) => assert_eq!(t.code(), 1012),
        other => panic!("expected taxonomy error, got {other:?}"),
    }
}
