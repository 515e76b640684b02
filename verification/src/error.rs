//! Stable error taxonomy shared by every stage of the pipeline.

use vstd::prelude::*;

verus! {

/// Stable numeric error codes surfaced to callers. The numeric code is the
/// contract; message text around it may vary.
#[derive(Debug, Clone, Copy, PartialEq, Eq, Structural, Hash)]
pub enum TaxonomyCode {
    Validation1001,
    Validation1002,
    Validation1003,
    Validation1004,
    Validation1005,
    Validation1006,
    Validation1007,
    Validation1008,
    Validation1009,
    Validation1010,
    Validation1011,
    Validation1012,
    Validation1013,
    Cli2001,
    Cli2002,
    Cli2003,
    Cli2004,
    Cli2005,
    Storage3001,
    Storage3002,
    Storage3003,
    Handoff5003,
    Handoff5004,
    Handoff5005,
    Handoff5006,
    Handoff5007,
    Handoff5008,
    Generic9999,
}

/// The numeric value of a taxonomy code.
pub open spec fn spec_taxonomy_code(c: TaxonomyCode) -> u16 {
    match c {
        TaxonomyCode::Validation1001 => 1001,
        TaxonomyCode::Validation1002 => 1002,
        TaxonomyCode::Validation1003 => 1003,
        TaxonomyCode::Validation1004 => 1004,
        TaxonomyCode::Validation1005 => 1005,
        TaxonomyCode::Validation1006 => 1006,
        TaxonomyCode::Validation1007 => 1007,
        TaxonomyCode::Validation1008 => 1008,
        TaxonomyCode::Validation1009 => 1009,
        TaxonomyCode::Validation1010 => 1010,
        TaxonomyCode::Validation1011 => 1011,
        TaxonomyCode::Validation1012 => 1012,
        TaxonomyCode::Validation1013 => 1013,
        TaxonomyCode::Cli2001 => 2001,
        TaxonomyCode::Cli2002 => 2002,
        TaxonomyCode::Cli2003 => 2003,
        TaxonomyCode::Cli2004 => 2004,
        TaxonomyCode::Cli2005 => 2005,
        TaxonomyCode::Storage3001 => 3001,
        TaxonomyCode::Storage3002 => 3002,
        TaxonomyCode::Storage3003 => 3003,
        TaxonomyCode::Handoff5003 => 5003,
        TaxonomyCode::Handoff5004 => 5004,
        TaxonomyCode::Handoff5005 => 5005,
        TaxonomyCode::Handoff5006 => 5006,
        TaxonomyCode::Handoff5007 => 5007,
        TaxonomyCode::Handoff5008 => 5008,
        TaxonomyCode::Generic9999 => 9999,
    }
}

/// The stable upper-case name of a taxonomy code.
pub open spec fn spec_taxonomy_name(c: TaxonomyCode) -> Seq<char> {
    match c {
        TaxonomyCode::Validation1001 => "VALIDATION_1001"@,
        TaxonomyCode::Validation1002 => "VALIDATION_1002"@,
        TaxonomyCode::Validation1003 => "VALIDATION_1003"@,
        TaxonomyCode::Validation1004 => "VALIDATION_1004"@,
        TaxonomyCode::Validation1005 => "VALIDATION_1005"@,
        TaxonomyCode::Validation1006 => "VALIDATION_1006"@,
        TaxonomyCode::Validation1007 => "VALIDATION_1007"@,
        TaxonomyCode::Validation1008 => "VALIDATION_1008"@,
        TaxonomyCode::Validation1009 => "VALIDATION_1009"@,
        TaxonomyCode::Validation1010 => "VALIDATION_1010"@,
        TaxonomyCode::Validation1011 => "VALIDATION_1011"@,
        TaxonomyCode::Validation1012 => "VALIDATION_1012"@,
        TaxonomyCode::Validation1013 => "VALIDATION_1013"@,
        TaxonomyCode::Cli2001 => "CLI_2001"@,
        TaxonomyCode::Cli2002 => "CLI_2002"@,
        TaxonomyCode::Cli2003 => "CLI_2003"@,
        TaxonomyCode::Cli2004 => "CLI_2004"@,
        TaxonomyCode::Cli2005 => "CLI_2005"@,
        TaxonomyCode::Storage3001 => "STORAGE_3001"@,
        TaxonomyCode::Storage3002 => "STORAGE_3002"@,
        TaxonomyCode::Storage3003 => "STORAGE_3003"@,
        TaxonomyCode::Handoff5003 => "HANDOFF_5003"@,
        TaxonomyCode::Handoff5004 => "HANDOFF_5004"@,
        TaxonomyCode::Handoff5005 => "HANDOFF_5005"@,
        TaxonomyCode::Handoff5006 => "HANDOFF_5006"@,
        TaxonomyCode::Handoff5007 => "HANDOFF_5007"@,
        TaxonomyCode::Handoff5008 => "HANDOFF_5008"@,
        TaxonomyCode::Generic9999 => "GENERIC_9999"@,
    }
}

impl TaxonomyCode {
    /// Every code, in ascending numeric order.
    pub fn all() -> (r: Vec<TaxonomyCode>)
        ensures
            r@.len() == 28,
            forall|i: int| 0 <= i < 28 ==> #[trigger] spec_taxonomy_code(r@[i]) == spec_all_codes()[i],
    {
        let r = vec![
            TaxonomyCode::Validation1001,
            TaxonomyCode::Validation1002,
            TaxonomyCode::Validation1003,
            TaxonomyCode::Validation1004,
            TaxonomyCode::Validation1005,
            TaxonomyCode::Validation1006,
            TaxonomyCode::Validation1007,
            TaxonomyCode::Validation1008,
            TaxonomyCode::Validation1009,
            TaxonomyCode::Validation1010,
            TaxonomyCode::Validation1011,
            TaxonomyCode::Validation1012,
            TaxonomyCode::Validation1013,
            TaxonomyCode::Cli2001,
            TaxonomyCode::Cli2002,
            TaxonomyCode::Cli2003,
            TaxonomyCode::Cli2004,
            TaxonomyCode::Cli2005,
            TaxonomyCode::Storage3001,
            TaxonomyCode::Storage3002,
            TaxonomyCode::Storage3003,
            TaxonomyCode::Handoff5003,
            TaxonomyCode::Handoff5004,
            TaxonomyCode::Handoff5005,
            TaxonomyCode::Handoff5006,
            TaxonomyCode::Handoff5007,
            TaxonomyCode::Handoff5008,
            TaxonomyCode::Generic9999,
        ];
        r
    }

    /// The stable numeric code.
    pub fn code(self) -> (r: u16)
        ensures
            r == spec_taxonomy_code(self),
    {
        match self {
            TaxonomyCode::Validation1001 => 1001,
            TaxonomyCode::Validation1002 => 1002,
            TaxonomyCode::Validation1003 => 1003,
            TaxonomyCode::Validation1004 => 1004,
            TaxonomyCode::Validation1005 => 1005,
            TaxonomyCode::Validation1006 => 1006,
            TaxonomyCode::Validation1007 => 1007,
            TaxonomyCode::Validation1008 => 1008,
            TaxonomyCode::Validation1009 => 1009,
            TaxonomyCode::Validation1010 => 1010,
            TaxonomyCode::Validation1011 => 1011,
            TaxonomyCode::Validation1012 => 1012,
            TaxonomyCode::Validation1013 => 1013,
            TaxonomyCode::Cli2001 => 2001,
            TaxonomyCode::Cli2002 => 2002,
            TaxonomyCode::Cli2003 => 2003,
            TaxonomyCode::Cli2004 => 2004,
            TaxonomyCode::Cli2005 => 2005,
            TaxonomyCode::Storage3001 => 3001,
            TaxonomyCode::Storage3002 => 3002,
            TaxonomyCode::Storage3003 => 3003,
            TaxonomyCode::Handoff5003 => 5003,
            TaxonomyCode::Handoff5004 => 5004,
            TaxonomyCode::Handoff5005 => 5005,
            TaxonomyCode::Handoff5006 => 5006,
            TaxonomyCode::Handoff5007 => 5007,
            TaxonomyCode::Handoff5008 => 5008,
            TaxonomyCode::Generic9999 => 9999,
        }
    }

    /// The stable upper-case name of the code.
    pub fn name(self) -> (r: &'static str)
        ensures
            r@ == spec_taxonomy_name(self),
    {
        match self {
            TaxonomyCode::Validation1001 => "VALIDATION_1001",
            TaxonomyCode::Validation1002 => "VALIDATION_1002",
            TaxonomyCode::Validation1003 => "VALIDATION_1003",
            TaxonomyCode::Validation1004 => "VALIDATION_1004",
            TaxonomyCode::Validation1005 => "VALIDATION_1005",
            TaxonomyCode::Validation1006 => "VALIDATION_1006",
            TaxonomyCode::Validation1007 => "VALIDATION_1007",
            TaxonomyCode::Validation1008 => "VALIDATION_1008",
            TaxonomyCode::Validation1009 => "VALIDATION_1009",
            TaxonomyCode::Validation1010 => "VALIDATION_1010",
            TaxonomyCode::Validation1011 => "VALIDATION_1011",
            TaxonomyCode::Validation1012 => "VALIDATION_1012",
            TaxonomyCode::Validation1013 => "VALIDATION_1013",
            TaxonomyCode::Cli2001 => "CLI_2001",
            TaxonomyCode::Cli2002 => "CLI_2002",
            TaxonomyCode::Cli2003 => "CLI_2003",
            TaxonomyCode::Cli2004 => "CLI_2004",
            TaxonomyCode::Cli2005 => "CLI_2005",
            TaxonomyCode::Storage3001 => "STORAGE_3001",
            TaxonomyCode::Storage3002 => "STORAGE_3002",
            TaxonomyCode::Storage3003 => "STORAGE_3003",
            TaxonomyCode::Handoff5003 => "HANDOFF_5003",
            TaxonomyCode::Handoff5004 => "HANDOFF_5004",
            TaxonomyCode::Handoff5005 => "HANDOFF_5005",
            TaxonomyCode::Handoff5006 => "HANDOFF_5006",
            TaxonomyCode::Handoff5007 => "HANDOFF_5007",
            TaxonomyCode::Handoff5008 => "HANDOFF_5008",
            TaxonomyCode::Generic9999 => "GENERIC_9999",
        }
    }
}

/// All 28 numeric codes in the order `TaxonomyCode::all` returns them.
pub open spec fn spec_all_codes() -> Seq<u16> {
    seq![
        1001u16, 1002, 1003, 1004, 1005, 1006, 1007, 1008, 1009, 1010, 1011, 1012, 1013,
        2001, 2002, 2003, 2004, 2005, 3001, 3002, 3003, 5003, 5004, 5005, 5006, 5007, 5008, 9999,
    ]
}

/// Causes of a rejected monetary amount.
#[derive(Debug, Clone, PartialEq, Eq)]
pub enum AmountError {
    BelowMinimum,
    AboveMaximum { value: u64 },
    EmptyInput,
    NegativeNotAllowed,
    InvalidFormat,
    InvalidNumeric,
    TooManyDecimals { decimals: usize },
    Overflow,
    InvalidZatoshiString { value: String },
}

/// The stable upper-case name of an amount-error variant.
pub open spec fn spec_amount_name(e: AmountError) -> Seq<char> {
    match e {
        AmountError::BelowMinimum => "AMOUNT_BELOW_MINIMUM"@,
        AmountError::AboveMaximum { .. } => "AMOUNT_ABOVE_MAXIMUM"@,
        AmountError::EmptyInput => "AMOUNT_EMPTY_INPUT"@,
        AmountError::NegativeNotAllowed => "AMOUNT_NEGATIVE_NOT_ALLOWED"@,
        AmountError::InvalidFormat => "AMOUNT_INVALID_FORMAT"@,
        AmountError::InvalidNumeric => "AMOUNT_INVALID_NUMERIC"@,
        AmountError::TooManyDecimals { .. } => "AMOUNT_TOO_MANY_DECIMALS"@,
        AmountError::Overflow => "AMOUNT_OVERFLOW"@,
        AmountError::InvalidZatoshiString { .. } => "AMOUNT_INVALID_ZATOSHI_STRING"@,
    }
}

/// The numeric value of an amount-error variant.
pub open spec fn spec_amount_code(e: AmountError) -> u16 {
    match e {
        AmountError::BelowMinimum => 1001,
        AmountError::AboveMaximum { .. } => 1002,
        AmountError::EmptyInput => 1003,
        AmountError::NegativeNotAllowed => 1004,
        AmountError::InvalidFormat => 1005,
        AmountError::InvalidNumeric => 1006,
        AmountError::TooManyDecimals { .. } => 1007,
        AmountError::Overflow => 1008,
        AmountError::InvalidZatoshiString { .. } => 1009,
    }
}

impl AmountError {
    /// The stable numeric code of this cause.
    pub fn code(&self) -> (r: u16)
        ensures
            r == spec_amount_code(*self),
            1001 <= r <= 1009,
    {
        match self {
            AmountError::BelowMinimum => 1001,
            AmountError::AboveMaximum { .. } => 1002,
            AmountError::EmptyInput => 1003,
            AmountError::NegativeNotAllowed => 1004,
            AmountError::InvalidFormat => 1005,
            AmountError::InvalidNumeric => 1006,
            AmountError::TooManyDecimals { .. } => 1007,
            AmountError::Overflow => 1008,
            AmountError::InvalidZatoshiString { .. } => 1009,
        }
    }

    /// The stable upper-case name of this cause.
    pub fn name(&self) -> (r: &'static str)
        ensures
            r@ == spec_amount_name(*self),
    {
        match self {
            AmountError::BelowMinimum => "AMOUNT_BELOW_MINIMUM",
            AmountError::AboveMaximum { .. } => "AMOUNT_ABOVE_MAXIMUM",
            AmountError::EmptyInput => "AMOUNT_EMPTY_INPUT",
            AmountError::NegativeNotAllowed => "AMOUNT_NEGATIVE_NOT_ALLOWED",
            AmountError::InvalidFormat => "AMOUNT_INVALID_FORMAT",
            AmountError::InvalidNumeric => "AMOUNT_INVALID_NUMERIC",
            AmountError::TooManyDecimals { .. } => "AMOUNT_TOO_MANY_DECIMALS",
            AmountError::Overflow => "AMOUNT_OVERFLOW",
            AmountError::InvalidZatoshiString { .. } => "AMOUNT_INVALID_ZATOSHI_STRING",
        }
    }
}

/// A taxonomy code together with a human-readable message.
#[derive(Debug, Clone, PartialEq, Eq)]
pub struct TaxonomyError {
    pub code: TaxonomyCode,
    pub message: String,
}

impl TaxonomyError {
    /// Pair a code with a message.
    pub fn new(code: TaxonomyCode, message: String) -> (r: TaxonomyError)
        ensures
            r.code == code,
            r.message@ == message@,
    {
        TaxonomyError { code, message }
    }

    /// The stable numeric code.
    pub fn code(&self) -> (r: u16)
        ensures
            r == spec_taxonomy_code(self.code),
    {
        self.code.code()
    }

    /// The stable name of the code.
    pub fn name(&self) -> (r: &'static str)
        ensures
            r@ == spec_taxonomy_name(self.code),
    {
        self.code.name()
    }
}

impl TaxonomyError {
    /// The human-readable rendering: code, name, and message.
    pub fn render(&self) -> (r: String)
        ensures
            r@.len() > 0,
    {
        let mut out = String::new();
        out.append("[");
        let code = crate::text::usize_to_string(self.code.code() as usize);
        out.append(code.as_str());
        out.append(":");
        out.append(self.code.name());
        out.append("] ");
        out.append(self.message.as_str());
        proof {
            reveal_strlit("[");
        }
        out
    }
}

impl AmountError {
    /// The human-readable rendering of this cause.
    pub fn render(&self) -> (r: String)
        ensures
            r@.len() > 0,
    {
        let r = match self {
            AmountError::BelowMinimum => "amount must be greater than zero",
            AmountError::AboveMaximum { .. } => "amount exceeds maximum supply",
            AmountError::EmptyInput => "amount input is empty",
            AmountError::NegativeNotAllowed => "negative amounts are not allowed",
            AmountError::InvalidFormat => "amount format is invalid",
            AmountError::InvalidNumeric => "amount contains non-numeric characters",
            AmountError::TooManyDecimals { .. } => "amount has too many decimal places",
            AmountError::Overflow => "amount arithmetic overflow",
            AmountError::InvalidZatoshiString { .. } => "invalid zatoshi string",
        };
        proof {
            reveal_strlit("amount must be greater than zero");
            reveal_strlit("amount exceeds maximum supply");
            reveal_strlit("amount input is empty");
            reveal_strlit("negative amounts are not allowed");
            reveal_strlit("amount format is invalid");
            reveal_strlit("amount contains non-numeric characters");
            reveal_strlit("amount has too many decimal places");
            reveal_strlit("amount arithmetic overflow");
            reveal_strlit("invalid zatoshi string");
        }
        r.to_owned()
    }
}

/// The library's top-level error: a bare taxonomy finding, an amount
/// failure, or a collected batch rejection.
#[derive(Debug, Clone, PartialEq, Eq)]
pub enum LaminarError {
    Taxonomy(TaxonomyError),
    Amount(AmountError),
    BatchValidation(crate::validation::BatchValidationError),
}

impl LaminarError {
    /// Wrap a taxonomy code and message.
    pub fn taxonomy(code: TaxonomyCode, message: &str) -> (r: LaminarError)
        ensures
            r matches LaminarError::Taxonomy(t) && t.code == code && t.message@ == message@,
    {
        LaminarError::Taxonomy(TaxonomyError { code, message: message.to_owned() })
    }
}

} // verus!
