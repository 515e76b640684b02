//! The multi-format codec: a single static QR image for small payloads, an
//! animated multi-part UR sequence for large ones.

use image::codecs::png::{CompressionType, FilterType, PngEncoder};
use vstd::prelude::*;
use vstd::utf8::encode_utf8;
use crate::batch::PAYLOAD_LIMIT_QR_STATIC;
use crate::error::{LaminarError, TaxonomyCode};
use crate::types::TransactionIntent;
use crate::ur_encoder::{encode_ur_fragments, ur_fragment_count_of, ur_part_of,
    DEFAULT_UR_FRAGMENT_LEN};

verus! {

/// Rendered images are at least this many pixels on each side.
pub const MIN_QR_DIMENSION: u32 = 300;

/// Suggested display interval between animated frames.
pub const UR_FRAME_INTERVAL_MS: u64 = 100;

/// How a payload was encoded: one static image, or an animated UR sequence.
#[derive(Debug, Clone, Copy, PartialEq, Eq, Structural)]
pub enum QrMode {
    Static,
    AnimatedUr,
}

/// One rendered frame: its index, its PNG bytes, and the exact string it
/// encodes.
#[derive(Debug, Clone, PartialEq, Eq)]
pub struct QrFrame {
    pub index: usize,
    pub png_bytes: Vec<u8>,
    pub data: String,
}

/// The full codec output for one payment request.
#[derive(Debug, Clone, PartialEq, Eq)]
pub struct QrOutput {
    pub mode: QrMode,
    pub frames: Vec<QrFrame>,
    pub total_frames: usize,
    pub payload_bytes: usize,
}

/// The PNG byte stream of the QR image that encodes `data` at the given
/// minimum dimension, with error-correction level M and a quiet border.
pub uninterp spec fn qr_png_of(data: Seq<char>, dimension: u32) -> Seq<u8>;

/// The number of bytes a version-40 QR code holds in byte mode at
/// error-correction level M: the largest payload the renderer always takes.
pub const QR_BYTE_CAPACITY: usize = 2331;

/// The eight-byte signature every PNG stream starts with.
pub open spec fn is_png(s: Seq<u8>) -> bool {
    &&& s.len() >= 8
    &&& s[0] == 0x89u8
    &&& s[1] == 0x50u8
    &&& s[2] == 0x4eu8
    &&& s[3] == 0x47u8
    &&& s[4] == 0x0du8
    &&& s[5] == 0x0au8
    &&& s[6] == 0x1au8
    &&& s[7] == 0x0au8
}

/// Relies on `qrcode::QrCode::with_error_correction_level`, its `render` to
/// `image::Luma`, and `image`'s PNG encoder with best compression: the
/// rendering pipeline is deterministic in the data and dimension, it accepts
/// every payload of at most the version-40 byte-mode capacity at level M,
/// and the PNG encoder writes the fixed eight-byte PNG signature first.
#[verifier::external_body]
fn qr_render_png(data: &str, dimension: u32) -> (r: Option<Vec<u8>>)
    ensures
        r matches Some(v) ==> v@ == qr_png_of(data@, dimension) && is_png(v@),
        encode_utf8(data@).len() <= QR_BYTE_CAPACITY ==> r is Some,
{
    let code = qrcode::QrCode::with_error_correction_level(data.as_bytes(), qrcode::EcLevel::M)
        .ok()?;
    let image = code.render::<image::Luma<u8>>().min_dimensions(dimension, dimension).dark_color(
        image::Luma([0u8]),
    ).light_color(image::Luma([255u8])).quiet_zone(true).build();
    let (width, height) = image.dimensions();
    let mut png_bytes = Vec::new();
    let encoder = PngEncoder::new_with_quality(
        &mut png_bytes, CompressionType::Best, FilterType::Adaptive);
    image::ImageEncoder::write_image(
        encoder, image.as_raw(), width, height, image::ExtendedColorType::L8).ok()?;
    Some(png_bytes)
}

/// Render one QR PNG for the given string, never below the dimension floor.
pub fn generate_qr_png(data: &str, size: u32) -> (r: Result<Vec<u8>, LaminarError>)
    ensures
        match r {
            Ok(v) => v@ == qr_png_of(data@, if size > MIN_QR_DIMENSION {
                size
            } else {
                MIN_QR_DIMENSION
            }) && is_png(v@),
            Err(e) => e matches LaminarError::Taxonomy(t) && t.code == TaxonomyCode::Handoff5003,
        },
        encode_utf8(data@).len() <= QR_BYTE_CAPACITY ==> r is Ok,
{
    let dimension = if size > MIN_QR_DIMENSION {
        size
    } else {
        MIN_QR_DIMENSION
    };
    match qr_render_png(data, dimension) {
        Some(v) => Ok(v),
        None => Err(LaminarError::taxonomy(
            TaxonomyCode::Handoff5003,
            "failed to encode QR data",
        )),
    }
}

/// Everything `generate_qr` promises of a successful encoding, as a
/// function of the URI characters alone.
pub open spec fn codec_matches(out: QrOutput, uri: Seq<char>) -> bool {
    let ub = encode_utf8(uri);
    &&& out.payload_bytes == ub.len()
    &&& out.total_frames == out.frames@.len()
    &&& if ub.len() <= PAYLOAD_LIMIT_QR_STATIC {
        &&& out.mode == QrMode::Static
        &&& out.frames@.len() == 1
        &&& out.frames@[0].index == 0
        &&& out.frames@[0].data@ == uri
        &&& out.frames@[0].png_bytes@ == qr_png_of(uri, MIN_QR_DIMENSION)
        &&& is_png(out.frames@[0].png_bytes@)
    } else {
        &&& out.mode == QrMode::AnimatedUr
        &&& out.frames@.len() == ur_fragment_count_of(ub, DEFAULT_UR_FRAGMENT_LEN)
        &&& out.frames@.len() >= 1
        &&& forall|k: int|
            0 <= k < out.frames@.len() ==> {
                &&& (#[trigger] out.frames@[k]).index == k
                &&& out.frames@[k].data@ == ur_part_of(ub, DEFAULT_UR_FRAGMENT_LEN, k as nat)
                &&& out.frames@[k].png_bytes@ == qr_png_of(
                    ur_part_of(ub, DEFAULT_UR_FRAGMENT_LEN, k as nat),
                    MIN_QR_DIMENSION,
                )
                &&& is_png(out.frames@[k].png_bytes@)
            }
    }
}

/// Encoding is repeatable: two outputs built from the same URI agree on
/// mode, frame count, payload size, and every frame's index, payload, and
/// image bytes.
pub proof fn lemma_codec_deterministic(a: QrOutput, b: QrOutput, uri: Seq<char>)
    requires
        codec_matches(a, uri),
        codec_matches(b, uri),
    ensures
        a.mode == b.mode,
        a.total_frames == b.total_frames,
        a.payload_bytes == b.payload_bytes,
        a.frames@.len() == b.frames@.len(),
        forall|k: int|
            0 <= k < a.frames@.len() ==> (#[trigger] a.frames@[k]).index == b.frames@[k].index
                && a.frames@[k].data@ == b.frames@[k].data@ && a.frames@[k].png_bytes@
                == b.frames@[k].png_bytes@,
{
}

/// Encode a payment request as scannable frames.
///
/// A URI at or below the static threshold becomes exactly one frame whose
/// payload is the full URI; anything larger is fragmented into an ordered
/// multi-part UR sequence with one frame per part.
pub fn generate_qr(intent: &TransactionIntent) -> (r: Result<QrOutput, LaminarError>)
    ensures
        match r {
            Ok(out) => codec_matches(out, intent.zip321_uri@),
            Err(e) => e matches LaminarError::Taxonomy(t) && t.code == TaxonomyCode::Handoff5003,
        },
        encode_utf8(intent.zip321_uri@).len() <= QR_BYTE_CAPACITY ==> r is Ok,
        encode_utf8(intent.zip321_uri@).len() > PAYLOAD_LIMIT_QR_STATIC ==> r is Ok,
{
    let us = intent.zip321_uri.as_str();
    let payload = us.as_bytes();
    proof {
        assert(payload@ == encode_utf8(intent.zip321_uri@));
    }
    let payload_bytes = payload.len();

    if payload_bytes <= PAYLOAD_LIMIT_QR_STATIC {
        let png_bytes = match generate_qr_png(us, MIN_QR_DIMENSION) {
            Ok(v) => v,
            Err(e) => {
                proof {
                    assert(encode_utf8(intent.zip321_uri@).len() > QR_BYTE_CAPACITY);
                }
                return Err(e);
            },
        };
        let data = intent.zip321_uri.clone();
        let mut frames: Vec<QrFrame> = Vec::new();
        frames.push(QrFrame { index: 0, png_bytes, data });
        return Ok(QrOutput { mode: QrMode::Static, frames, total_frames: 1, payload_bytes });
    }

    let fragments = match encode_ur_fragments(payload, DEFAULT_UR_FRAGMENT_LEN) {
        Ok(f) => f,
        Err(_) => {
            proof {
                assert(false);
            }
            return Err(LaminarError::taxonomy(TaxonomyCode::Handoff5003, "unreachable"));
        },
    };
    let mut frames: Vec<QrFrame> = Vec::new();
    let mut i: usize = 0;
    while i < fragments.len()
        invariant
            0 <= i <= fragments@.len(),
            payload@ == encode_utf8(intent.zip321_uri@),
            fragments@.len() == ur_fragment_count_of(payload@, DEFAULT_UR_FRAGMENT_LEN),
            forall|k: int|
                0 <= k < fragments@.len() ==> (#[trigger] fragments@[k])@ == ur_part_of(
                    payload@,
                    DEFAULT_UR_FRAGMENT_LEN,
                    k as nat,
                ) && fragments@[k]@.len() <= 2 * DEFAULT_UR_FRAGMENT_LEN + 160
                    && vstd::utf8::is_ascii_chars(fragments@[k]@),
            frames@.len() == i,
            forall|k: int|
                0 <= k < i ==> {
                    &&& (#[trigger] frames@[k]).index == k
                    &&& frames@[k].data@ == ur_part_of(payload@, DEFAULT_UR_FRAGMENT_LEN, k as nat)
                    &&& frames@[k].png_bytes@ == qr_png_of(
                        ur_part_of(payload@, DEFAULT_UR_FRAGMENT_LEN, k as nat),
                        MIN_QR_DIMENSION,
                    )
                    &&& is_png(frames@[k].png_bytes@)
                },
        decreases fragments@.len() - i,
    {
        let data = fragments[i].clone();
        proof {
            vstd::utf8::is_ascii_chars_encode_utf8(data@);
            assert(encode_utf8(data@).len() == data@.len());
        }
        let png_bytes = match generate_qr_png(data.as_str(), MIN_QR_DIMENSION) {
            Ok(v) => v,
            Err(e) => {
                proof {
                    assert(false);
                }
                return Err(e);
            },
        };
        frames.push(QrFrame { index: i, png_bytes, data });
        i = i + 1;
    }
    let total_frames = frames.len();
    Ok(QrOutput { mode: QrMode::AnimatedUr, frames, total_frames, payload_bytes })
}

} // verus!
