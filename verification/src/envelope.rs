//! Machine-readable response envelope pieces: exit codes and the stable
//! error and warning code strings.

use vstd::prelude::*;
use crate::decimal::{dec_digits, lemma_dec_digits};
use crate::text::{ascii_str, is_ascii_bytes, string_from_utf8};
use crate::types::Network;

verus! {

/// Process exit codes of the command-line front end.
#[derive(Debug, Clone, Copy, PartialEq, Eq, Structural)]
pub enum ExitCode {
    Success,
    ValidationError,
    ConfigError,
    IoError,
    InternalError,
}

/// The numeric value of an exit code.
pub open spec fn spec_exit_code(c: ExitCode) -> i32 {
    match c {
        ExitCode::Success => 0,
        ExitCode::ValidationError => 1,
        ExitCode::ConfigError => 2,
        ExitCode::IoError => 3,
        ExitCode::InternalError => 4,
    }
}

impl ExitCode {
    /// The process exit status this code maps to.
    pub fn as_i32(self) -> (r: i32)
        ensures
            r == spec_exit_code(self),
    {
        match self {
            ExitCode::Success => 0,
            ExitCode::ValidationError => 1,
            ExitCode::ConfigError => 2,
            ExitCode::IoError => 3,
            ExitCode::InternalError => 4,
        }
    }
}

/// Machine-readable error codes of the envelope.
#[derive(Debug, Clone, Copy, PartialEq, Eq, Structural)]
pub enum ErrorCode {
    InvalidAddressFormat,
    NetworkMismatch,
    AmountOutOfRange,
    AmountPrecisionLoss,
    MemoTooLong,
    MemoInvalidUtf8,
    BatchTotalOverflow,
    CsvParseError,
    MissingRequiredColumn,
    MissingRequiredArgument,
    ConfirmationRequired,
    Unknown,
}

/// The stable upper-case name of an envelope error code.
pub open spec fn spec_error_name(c: ErrorCode) -> Seq<char> {
    match c {
        ErrorCode::InvalidAddressFormat => "INVALID_ADDRESS_FORMAT"@,
        ErrorCode::NetworkMismatch => "NETWORK_MISMATCH"@,
        ErrorCode::AmountOutOfRange => "AMOUNT_OUT_OF_RANGE"@,
        ErrorCode::AmountPrecisionLoss => "AMOUNT_PRECISION_LOSS"@,
        ErrorCode::MemoTooLong => "MEMO_TOO_LONG"@,
        ErrorCode::MemoInvalidUtf8 => "MEMO_INVALID_UTF8"@,
        ErrorCode::BatchTotalOverflow => "BATCH_TOTAL_OVERFLOW"@,
        ErrorCode::CsvParseError => "CSV_PARSE_ERROR"@,
        ErrorCode::MissingRequiredColumn => "MISSING_REQUIRED_COLUMN"@,
        ErrorCode::MissingRequiredArgument => "MISSING_REQUIRED_ARGUMENT"@,
        ErrorCode::ConfirmationRequired => "CONFIRMATION_REQUIRED"@,
        ErrorCode::Unknown => "UNKNOWN"@,
    }
}

/// The numeric value of an envelope error code.
pub open spec fn spec_error_code(c: ErrorCode) -> u16 {
    match c {
        ErrorCode::InvalidAddressFormat => 1,
        ErrorCode::NetworkMismatch => 2,
        ErrorCode::AmountOutOfRange => 3,
        ErrorCode::AmountPrecisionLoss => 4,
        ErrorCode::MemoTooLong => 5,
        ErrorCode::MemoInvalidUtf8 => 6,
        ErrorCode::BatchTotalOverflow => 7,
        ErrorCode::CsvParseError => 8,
        ErrorCode::MissingRequiredColumn => 9,
        ErrorCode::MissingRequiredArgument => 10,
        ErrorCode::ConfirmationRequired => 11,
        ErrorCode::Unknown => 99,
    }
}

/// A letter followed by the three-digit zero-padded rendering of `n`.
pub open spec fn padded_code_chars(letter: u8, n: u16) -> Seq<char> {
    ascii_str(seq![letter] + lpad3(dec_digits(n as nat)))
}

/// `d` left-padded with zero digits to length 3.
pub open spec fn lpad3(d: Seq<u8>) -> Seq<u8> {
    if d.len() >= 3 {
        d
    } else {
        Seq::new((3 - d.len()) as nat, |i: int| 0x30u8) + d
    }
}

/// Render a letter-prefixed, three-digit zero-padded code string.
fn padded_code(letter: u8, n: u16) -> (r: String)
    requires
        0x41 <= letter <= 0x5a,
    ensures
        r@ == padded_code_chars(letter, n),
{
    let mut out: Vec<u8> = Vec::new();
    out.push(letter);
    let mut digits: Vec<u8> = Vec::new();
    crate::decimal::push_dec_u64(n as u64, &mut digits);
    proof {
        lemma_dec_digits(n as nat);
    }
    let mut pad: usize = if digits.len() >= 3 {
        0
    } else {
        3 - digits.len()
    };
    let ghost padn = pad as int;
    while pad > 0
        invariant
            out@.len() == 1 + (padn - pad),
            out@[0] == letter,
            pad <= padn,
            forall|i: int| 1 <= i < out@.len() ==> #[trigger] out@[i] == 0x30u8,
        decreases pad,
    {
        out.push(0x30);
        pad = pad - 1;
    }
    let mut i: usize = 0;
    let ghost mid = out@;
    while i < digits.len()
        invariant
            0 <= i <= digits@.len(),
            out@ =~= mid + digits@.take(i as int),
        decreases digits@.len() - i,
    {
        out.push(digits[i]);
        proof {
            assert(digits@.take(i + 1) =~= digits@.take(i as int).push(digits@[i as int]));
        }
        i = i + 1;
    }
    proof {
        assert(digits@.take(digits@.len() as int) =~= digits@);
        assert(out@ =~= seq![letter] + lpad3(dec_digits(n as nat)));
        assert(is_ascii_bytes(out@)) by {
            assert(forall|k: int|
                0 <= k < lpad3(dec_digits(n as nat)).len() ==> #[trigger] lpad3(
                    dec_digits(n as nat),
                )[k] < 0x80);
        }
    }
    string_from_utf8(out)
}

impl ErrorCode {
    /// The `E`-prefixed, zero-padded code string.
    pub fn code_string(&self) -> (r: String)
        ensures
            r@ == padded_code_chars(0x45, spec_error_code(*self)),
    {
        let n = match self {
            ErrorCode::InvalidAddressFormat => 1,
            ErrorCode::NetworkMismatch => 2,
            ErrorCode::AmountOutOfRange => 3,
            ErrorCode::AmountPrecisionLoss => 4,
            ErrorCode::MemoTooLong => 5,
            ErrorCode::MemoInvalidUtf8 => 6,
            ErrorCode::BatchTotalOverflow => 7,
            ErrorCode::CsvParseError => 8,
            ErrorCode::MissingRequiredColumn => 9,
            ErrorCode::MissingRequiredArgument => 10,
            ErrorCode::ConfirmationRequired => 11,
            ErrorCode::Unknown => 99,
        };
        padded_code(0x45, n)
    }

    /// The stable upper-case name of the code.
    pub fn name(&self) -> (r: &'static str)
        ensures
            r@ == spec_error_name(*self),
    {
        match self {
            ErrorCode::InvalidAddressFormat => "INVALID_ADDRESS_FORMAT",
            ErrorCode::NetworkMismatch => "NETWORK_MISMATCH",
            ErrorCode::AmountOutOfRange => "AMOUNT_OUT_OF_RANGE",
            ErrorCode::AmountPrecisionLoss => "AMOUNT_PRECISION_LOSS",
            ErrorCode::MemoTooLong => "MEMO_TOO_LONG",
            ErrorCode::MemoInvalidUtf8 => "MEMO_INVALID_UTF8",
            ErrorCode::BatchTotalOverflow => "BATCH_TOTAL_OVERFLOW",
            ErrorCode::CsvParseError => "CSV_PARSE_ERROR",
            ErrorCode::MissingRequiredColumn => "MISSING_REQUIRED_COLUMN",
            ErrorCode::MissingRequiredArgument => "MISSING_REQUIRED_ARGUMENT",
            ErrorCode::ConfirmationRequired => "CONFIRMATION_REQUIRED",
            ErrorCode::Unknown => "UNKNOWN",
        }
    }
}

/// Machine-readable warning codes of the envelope.
#[derive(Debug, Clone, Copy, PartialEq, Eq, Structural)]
pub enum WarningCode {
    DuplicateAddress,
}

/// The numeric value of an envelope warning code.
pub open spec fn spec_warning_code(c: WarningCode) -> u16 {
    match c {
        WarningCode::DuplicateAddress => 1,
    }
}

impl WarningCode {
    /// The `W`-prefixed, zero-padded code string.
    pub fn code_string(&self) -> (r: String)
        ensures
            r@ == padded_code_chars(0x57, spec_warning_code(*self)),
    {
        let n = match self {
            WarningCode::DuplicateAddress => 1,
        };
        padded_code(0x57, n)
    }
}

/// The successful-operation payload of the machine envelope.
#[derive(Debug, Clone, PartialEq, Eq)]
pub struct CliResult {
    pub batch_id: String,
    pub network: Network,
    pub recipient_count: usize,
    pub total_zatoshis: u64,
    pub total_zec: String,
    pub segments: usize,
    pub zip321_uri: Option<String>,
    pub ur_encoded: Option<Vec<String>>,
    pub warnings: Vec<String>,
}

/// Row and column context attached to an envelope error.
#[derive(Debug, Clone, PartialEq, Eq)]
pub struct CliErrorDetails {
    pub row: Option<usize>,
    pub column: Option<String>,
    pub value: Option<String>,
    pub expected_formats: Option<Vec<String>>,
}

} // verus!
