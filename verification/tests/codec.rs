use laminar::batch::PAYLOAD_LIMIT_QR_STATIC;
use laminar::qr::{generate_qr, QrMode, MIN_QR_DIMENSION};
use laminar::types::{Network, Recipient, TransactionIntent, Zatoshi};
use laminar::ur_encoder::decode_ur_fragments;
use laminar::validation::{RecipientAddressType, ValidatedBatch, ValidatedRecipient};
use laminar::zip321::construct_zip321;

const MAINNET_TADDR: &str = "t1Hsc1LR8yKnbbe3twRp88p6vFfC5t7DLbs";
const PNG_SIGNATURE: [u8; 8] = [137, 80, 78, 71, 13, 10, 26, 10];

fn intent_with_recipients(count: usize) -> TransactionIntent {
    let recipients: Vec<ValidatedRecipient> = (0..count)
        .map(|index| ValidatedRecipient {
            row_number: index + 1,
            address_type: RecipientAddressType::Transparent,
            recipient: Recipient {
                address: MAINNET_TADDR.to_string(),
                amount: Zatoshi::new(1).unwrap(),
                memo: Some(format!("memo-{index:03}")),
                label: None,
            },
        })
        .collect();

    let mut total = recipients[0].recipient.amount;
    for validated in recipients.iter().skip(1) {
        total = total.checked_add(validated.recipient.amount).unwrap();
    }

    let batch = ValidatedBatch {
        recipients,
        total,
        network: Network::Mainnet,
        warnings: Vec::new(),
    };
    construct_zip321(&batch).unwrap()
}

fn decode_qr_data(png_bytes: &[u8]) -> String {
    let gray = image::load_from_memory(png_bytes).unwrap().to_luma8();
    let mut prepared = rqrr::PreparedImage::prepare(gray);
    let mut grids = prepared.detect_grids();
    assert!(!grids.is_empty());
    let (_, content) = grids.remove(0).decode().unwrap();
    content
}

#[test]
fn static_qr_for_ten_recipients_is_single_frame_valid_png() {
    let intent = intent_with_recipients(10);
    assert!(intent.payload_bytes <= PAYLOAD_LIMIT_QR_STATIC);

    let output = generate_qr(&intent).unwrap();
    assert_eq!(output.mode, QrMode::Static);
    assert_eq!(output.total_frames, 1);
    assert_eq!(output.frames.len(), 1);
    assert_eq!(output.payload_bytes, intent.payload_bytes);

    let frame = &output.frames[0];
    assert_eq!(frame.index, 0);
    assert_eq!(frame.data, intent.zip321_uri);
    assert!(frame.png_bytes.starts_with(&PNG_SIGNATURE));

    let decoded = decode_qr_data(&frame.png_bytes);
    assert_eq!(decoded, intent.zip321_uri);
}

#[test]
fn animated_ur_for_large_payload_uses_multiple_frames_and_roundtrips() {
    let intent = intent_with_recipients(100);
    assert!(intent.payload_bytes > PAYLOAD_LIMIT_QR_STATIC);

    let output = generate_qr(&intent).unwrap();
    assert_eq!(output.mode, QrMode::AnimatedUr);
    assert!(output.total_frames > 1);
    assert_eq!(output.total_frames, output.frames.len());
    assert_eq!(output.payload_bytes, intent.payload_bytes);

    let mut fragments: Vec<String> = Vec::new();
    for (index, frame) in output.frames.iter().enumerate() {
        assert_eq!(frame.index, index);
        assert!(frame.data.starts_with("ur:bytes/"));
        assert!(frame.png_bytes.starts_with(&PNG_SIGNATURE));

        let decoded_qr = decode_qr_data(&frame.png_bytes);
        assert_eq!(decoded_qr, frame.data);

        fragments.push(frame.data.clone());
    }
    let reassembled = decode_ur_fragments(&fragments).unwrap();
    assert_eq!(reassembled, intent.zip321_uri.as_bytes().to_vec());
}

#[test]
fn qr_png_is_at_least_300x300() {
    let intent = intent_with_recipients(10);
    let output = generate_qr(&intent).unwrap();
    let image = image::load_from_memory(&output.frames[0].png_bytes).unwrap();
    assert!(image.width() >= MIN_QR_DIMENSION);
    assert!(image.height() >= MIN_QR_DIMENSION);
}

#[test]
fn qr_generation_is_deterministic_for_same_input() {
    let intent = intent_with_recipients(10);
    let first = generate_qr(&intent).unwrap();
    let second = generate_qr(&intent).unwrap();
    assert_eq!(first, second);
}
