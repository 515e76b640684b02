use laminar::batch::segment_batch;
use laminar::error::LaminarError;
use laminar::hex::{from_hex, to_lower_hex};
use laminar::types::{Network, Recipient, Zatoshi};
use laminar::validation::{RecipientAddressType, ValidatedBatch, ValidatedRecipient};
use laminar::zip321::construct_zip321;

const MAINNET_TADDR: &str = "t1Hsc1LR8yKnbbe3twRp88p6vFfC5t7DLbs";
const MAINNET_SAPLING: &str =
    "zs1qqqqqqqqqqqqqqqqqqqqqqqqqqqqqqqqqqqqqqqqqqqqqqqqqqqqqqqqqqqqqqqqqqqqqpq6d8g";

fn vr(row_number: usize, amount_zat: u64, memo: Option<&str>) -> ValidatedRecipient {
    ValidatedRecipient {
        row_number,
        address_type: RecipientAddressType::Transparent,
        recipient: Recipient {
            address: MAINNET_TADDR.to_string(),
            amount: Zatoshi::new(amount_zat).unwrap(),
            memo: memo.map(ToOwned::to_owned),
            label: None,
        },
    }
}

fn vr_sapling(row_number: usize, amount_zat: u64) -> ValidatedRecipient {
    ValidatedRecipient {
        row_number,
        address_type: RecipientAddressType::Sapling,
        recipient: Recipient {
            address: MAINNET_SAPLING.to_string(),
            amount: Zatoshi::new(amount_zat).unwrap(),
            memo: None,
            label: None,
        },
    }
}

#[test]
fn hundred_one_zatoshi_recipients_fail_an_eighty_byte_budget() {
    let recipients: Vec<ValidatedRecipient> = (0..100).map(|i| vr_sapling(i + 1, 1)).collect();
    let batch = ValidatedBatch {
        recipients,
        total: Zatoshi::new(100).unwrap(),
        network: Network::Mainnet,
        warnings: Vec::new(),
    };
    let err = segment_batch(&batch, 80).unwrap_err();
    match err {
        LaminarError::Taxonomy(t) => assert_eq!(t.code(), 1010),
        other => panic!("expected taxonomy error, got {other:?}"),
    }
}

#[test]
fn derived_identity_fields_are_content_hashes() {
    let batch = ValidatedBatch {
        recipients: vec![vr(1, 150_000_000, Some("hello"))],
        total: Zatoshi::new(150_000_000).unwrap(),
        network: Network::Mainnet,
        warnings: Vec::new(),
    };
    let intent = construct_zip321(&batch).unwrap();
    assert_eq!(
        intent.zip321_uri,
        "zcash:t1Hsc1LR8yKnbbe3twRp88p6vFfC5t7DLbs?amount=1.5&memo=aGVsbG8="
    );
    assert_eq!(
        intent.payload_hash,
        "sha256:f409cf9f27baa6ca0b786569390c41dd2b2f22c7c6ab229e3b31d218b21f431a"
    );
    assert_eq!(intent.id, "a32bc8cd-f2e7-5a39-80f3-84e681e5c004");
    assert_eq!(intent.created_at, "5212-05-10T18:37:31Z");
}

#[test]
fn hex_encoding_round_trips() {
    let data = vec![0x00u8, 0x01, 0x7f, 0x80, 0xff, 0xde, 0xad];
    let encoded = to_lower_hex(&data);
    assert_eq!(encoded, "00017f80ffdead");
    let decoded = from_hex(&encoded).unwrap();
    assert_eq!(decoded, data);
    assert_eq!(from_hex("DEADBEEF").unwrap(), vec![0xde, 0xad, 0xbe, 0xef]);
    assert!(from_hex("abc").is_none());
    assert!(from_hex("zz").is_none());
}
