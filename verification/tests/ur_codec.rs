use laminar::error::LaminarError;
use laminar::ur_encoder::{decode_ur_fragments, encode_ur_fragments, DEFAULT_UR_FRAGMENT_LEN};

fn taxonomy_code(err: &LaminarError) -> Option<u16> {
    match err {
        LaminarError::Taxonomy(t) => Some(t.code()),
        _ => None,
    }
}

fn sample_payload() -> Vec<u8> {
    "laminar-ur-roundtrip".repeat(128).into_bytes()
}

#[test]
fn encode_uses_multipart_ur_format() {
    let payload = sample_payload();
    let fragments = encode_ur_fragments(&payload, DEFAULT_UR_FRAGMENT_LEN).unwrap();
    assert!(fragments.len() > 1);

    for (expected_index, fragment) in fragments.iter().enumerate() {
        assert!(fragment.starts_with("ur:bytes/"));
        let remainder = fragment.strip_prefix("ur:bytes/").unwrap();
        let (indices, body) = remainder.split_once('/').unwrap();
        let (part, total) = indices.split_once('-').unwrap();
        let part = part.parse::<usize>().unwrap();
        let total = total.parse::<usize>().unwrap();

        assert_eq!(part, expected_index + 1);
        assert_eq!(total, fragments.len());
        assert!(!body.is_empty());
    }
}

#[test]
fn ur_roundtrip_encode_decode() {
    let payload = sample_payload();
    let fragments = encode_ur_fragments(&payload, DEFAULT_UR_FRAGMENT_LEN).unwrap();
    let decoded = decode_ur_fragments(&fragments).unwrap();
    assert_eq!(decoded, payload);
}

#[test]
fn ur_roundtrip_out_of_order() {
    let payload = sample_payload();
    let mut fragments = encode_ur_fragments(&payload, DEFAULT_UR_FRAGMENT_LEN).unwrap();
    fragments.reverse();
    let decoded = decode_ur_fragments(&fragments).unwrap();
    assert_eq!(decoded, payload);
}

#[test]
fn ur_roundtrip_small_payload() {
    let payload = vec![0u8, 1, 2, 3];
    let fragments = encode_ur_fragments(&payload, DEFAULT_UR_FRAGMENT_LEN).unwrap();
    assert_eq!(fragments.len(), 1);
    let decoded = decode_ur_fragments(&fragments).unwrap();
    assert_eq!(decoded, payload);
}

#[test]
fn encode_rejects_empty_payload() {
    let err = encode_ur_fragments(&[], DEFAULT_UR_FRAGMENT_LEN).unwrap_err();
    assert_eq!(taxonomy_code(&err), Some(5005));
}

#[test]
fn encode_rejects_zero_fragment_len() {
    let err = encode_ur_fragments(&sample_payload(), 0).unwrap_err();
    assert_eq!(taxonomy_code(&err), Some(5005));
}

#[test]
fn decode_rejects_empty_fragment_list() {
    let err = decode_ur_fragments(&Vec::new()).unwrap_err();
    assert_eq!(taxonomy_code(&err), Some(5007));
}

#[test]
fn decode_rejects_invalid_fragment_data() {
    let fragments = vec!["ur:bytes/not-valid".to_string()];
    let err = decode_ur_fragments(&fragments).unwrap_err();
    assert_eq!(taxonomy_code(&err), Some(5007));
}

#[test]
fn decode_rejects_incomplete_fragment_set() {
    let payload = sample_payload();
    let fragments = encode_ur_fragments(&payload, DEFAULT_UR_FRAGMENT_LEN).unwrap();
    let incomplete = vec![fragments[0].clone()];
    let err = decode_ur_fragments(&incomplete).unwrap_err();
    assert_eq!(taxonomy_code(&err), Some(5008));
}
