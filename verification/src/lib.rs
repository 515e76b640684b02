//! Batch payment-request construction for Zcash.
//!
//! The pipeline turns validated recipient rows into deterministic ZIP-321
//! payment-request URIs and scannable artifacts: row validation, batch
//! assembly, canonical URI construction, byte-budget segmentation, and a
//! static/animated QR codec with multi-part UR framing.

pub mod batch;
pub mod decimal;
pub mod envelope;
pub mod error;
pub mod hex;
pub mod mode;
pub mod output;
pub mod parser;
pub mod precheck;
pub mod qr;
pub mod receipt;
pub mod text;
pub mod types;
pub mod ur_encoder;
pub mod validation;
pub mod zip321;

pub use error::LaminarError;
