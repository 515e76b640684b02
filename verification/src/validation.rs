//! Row and batch validation: address classification with network and prefix
//! cross-checks, strict amount parsing, memo limits, and all-or-nothing
//! batch assembly.
//!
//! Throughout, only ASCII whitespace counts as padding around addresses,
//! amounts, and labels; non-ASCII whitespace is treated as content and
//! rejected wherever the field's grammar rejects it.

use vstd::prelude::*;
use vstd::utf8::encode_utf8;
use crate::decimal::{all_digits, dec_digits, digits_val, parse_dec_u64};
use crate::error::{spec_taxonomy_code, AmountError, LaminarError, TaxonomyCode};
use crate::text::{ascii_str, copy_range, is_ascii_bytes, string_from_utf8, trim_bytes,
    trim_range, trim_string};
use crate::types::{zec_parse, BatchConfig, Network, Recipient, Zatoshi, ZATOSHI_MAX,
    ZATOSHI_MIN};

verus! {

/// One raw input row, as handed over by an external row source.
#[derive(Debug, Clone, PartialEq, Eq)]
pub struct RawRow {
    pub row_number: usize,
    pub address: String,
    pub amount_zec: Option<String>,
    pub amount_zatoshis: Option<String>,
    pub memo: Option<String>,
    pub label: Option<String>,
}

/// The closed set of recipient address kinds the pipeline accepts.
#[derive(Debug, Clone, Copy, PartialEq, Eq, Structural)]
pub enum RecipientAddressType {
    Unified,
    Sapling,
    Transparent,
}

/// The network an address encoding belongs to, as the prefix spells it.
#[derive(Debug, Clone, Copy, PartialEq, Eq, Structural)]
pub enum AddressNet {
    Main,
    Test,
    Regtest,
}

/// One successfully validated row.
#[derive(Debug, Clone, PartialEq, Eq)]
pub struct ValidatedRecipient {
    pub row_number: usize,
    pub address_type: RecipientAddressType,
    pub recipient: Recipient,
}

/// A fully validated batch: either every row passed, or none did.
#[derive(Debug, Clone, PartialEq, Eq)]
pub struct ValidatedBatch {
    pub recipients: Vec<ValidatedRecipient>,
    pub total: Zatoshi,
    pub network: Network,
    pub warnings: Vec<String>,
}

/// One structured validation finding: a stable code with optional row and
/// column attribution.
#[derive(Debug, Clone, PartialEq, Eq)]
pub struct BatchValidationIssue {
    pub code: TaxonomyCode,
    pub row_number: Option<usize>,
    pub column: Option<String>,
    pub message: String,
}

impl BatchValidationIssue {
    /// Assemble an issue from its parts.
    pub fn new(code: TaxonomyCode, row_number: Option<usize>, column: Option<&str>, message: &str)
        -> (r: BatchValidationIssue)
        ensures
            r.code == code,
            r.row_number == row_number,
            issue_column(r) == (match column {
                Some(c) => Some(c@),
                None => None::<Seq<char>>,
            }),
            r.message@ == message@,
    {
        BatchValidationIssue {
            code,
            row_number,
            column: match column {
                Some(c) => Some(c.to_owned()),
                None => None,
            },
            message: message.to_owned(),
        }
    }
}

/// The whole collection of findings that rejected a batch.
#[derive(Debug, Clone, PartialEq, Eq)]
pub struct BatchValidationError {
    pub issues: Vec<BatchValidationIssue>,
}

/// What identifies an issue in contracts: its code, row, and column. Message
/// text is deliberately left free.
pub open spec fn issue_meta(i: BatchValidationIssue) -> (u16, Option<usize>, Option<Seq<char>>) {
    (spec_taxonomy_code(i.code), i.row_number, issue_column(i))
}

/// The column name of an issue, as characters.
pub open spec fn issue_column(i: BatchValidationIssue) -> Option<Seq<char>> {
    match i.column {
        Some(c) => Some(c@),
        None => None,
    }
}

/// Whether the bytes are ASCII and decode as some Zcash address under
/// `zcash_address::ZcashAddress::try_from_encoded`.
pub uninterp spec fn zaddr_decodes(s: Seq<u8>) -> bool;

/// Relies on `zcash_address::ZcashAddress::try_from_encoded` for the one
/// judgement the library cannot make itself: whether the bytes are a valid
/// Zcash address encoding (checksum and structure included). The result
/// depends on the bytes alone. The body admits only ASCII bytes before
/// decoding: the library treats nothing but ASCII whitespace as padding,
/// while the decoder itself would first strip Unicode whitespace too.
#[verifier::external_body]
fn address_decodes(b: &[u8]) -> (r: bool)
    ensures
        r == zaddr_decodes(b@),
        r ==> is_ascii_bytes(b@),
{
    match core::str::from_utf8(b) {
        Ok(s) if s.is_ascii() => zcash_address::ZcashAddress::try_from_encoded(s).is_ok(),
        _ => false,
    }
}

/// `p` spells the first bytes of `s`.
pub open spec fn bytes_pre(s: Seq<u8>, p: Seq<u8>) -> bool {
    p.len() <= s.len() && s.take(p.len() as int) == p
}

/// `s` starts with the ASCII prefix `p`.
pub open spec fn pre(s: Seq<u8>, p: Seq<char>) -> bool {
    bytes_pre(s, encode_utf8(p))
}

/// The network and kind an address encoding's prefix spells, for every
/// encoding `zcash_address` can decode; `None` for the unsupported Sprout
/// family and for anything unrecognized.
pub open spec fn addr_net_kind(t: Seq<u8>) -> Option<(AddressNet, RecipientAddressType)> {
    if pre(t, "u1"@) {
        Some((AddressNet::Main, RecipientAddressType::Unified))
    } else if pre(t, "utest1"@) {
        Some((AddressNet::Test, RecipientAddressType::Unified))
    } else if pre(t, "uregtest1"@) {
        Some((AddressNet::Regtest, RecipientAddressType::Unified))
    } else if pre(t, "ztestsapling"@) {
        Some((AddressNet::Test, RecipientAddressType::Sapling))
    } else if pre(t, "zregtestsapling"@) {
        Some((AddressNet::Regtest, RecipientAddressType::Sapling))
    } else if pre(t, "zs"@) {
        Some((AddressNet::Main, RecipientAddressType::Sapling))
    } else if pre(t, "zc"@) || pre(t, "zt"@) {
        // Sprout addresses decode but are not supported
        None
    } else if pre(t, "texregtest1"@) {
        Some((AddressNet::Regtest, RecipientAddressType::Transparent))
    } else if pre(t, "textest1"@) {
        Some((AddressNet::Test, RecipientAddressType::Transparent))
    } else if pre(t, "tex1"@) {
        Some((AddressNet::Main, RecipientAddressType::Transparent))
    } else if pre(t, "t1"@) || pre(t, "t3"@) {
        Some((AddressNet::Main, RecipientAddressType::Transparent))
    } else if pre(t, "tm"@) || pre(t, "t2"@) {
        Some((AddressNet::Test, RecipientAddressType::Transparent))
    } else {
        None
    }
}

/// The address network a batch network expects.
pub open spec fn expected_net(network: Network) -> AddressNet {
    match network {
        Network::Mainnet => AddressNet::Main,
        Network::Testnet => AddressNet::Test,
    }
}

/// The defensive prefix cross-check applied after classification, exactly as
/// the per-kind rules state it.
pub open spec fn prefix_rule_violated(
    t: Seq<u8>,
    kind: RecipientAddressType,
    network: Network,
) -> bool {
    match (kind, network) {
        (RecipientAddressType::Unified, Network::Mainnet) => !pre(t, "u1"@),
        (RecipientAddressType::Unified, Network::Testnet) => !pre(t, "utest1"@),
        (RecipientAddressType::Sapling, Network::Mainnet) => !pre(t, "zs"@),
        (RecipientAddressType::Sapling, Network::Testnet) => !pre(t, "ztestsapling"@),
        (RecipientAddressType::Transparent, Network::Mainnet) => !(pre(t, "t1"@) || pre(
            t,
            "t3"@,
        )),
        (RecipientAddressType::Transparent, Network::Testnet) => false,
    }
}

/// The full judgement on one trimmed address byte string: its kind, or the
/// taxonomy code that rejects it.
pub open spec fn addr_check(t: Seq<u8>, network: Network) -> Result<
    RecipientAddressType,
    TaxonomyCode,
> {
    if t.len() == 0 {
        Err(TaxonomyCode::Validation1001)
    } else if !zaddr_decodes(t) {
        Err(TaxonomyCode::Validation1001)
    } else {
        match addr_net_kind(t) {
            None => Err(TaxonomyCode::Validation1001),
            Some((net, kind)) => if net != expected_net(network) {
                Err(TaxonomyCode::Validation1005)
            } else if prefix_rule_violated(t, kind, network) {
                Err(TaxonomyCode::Validation1001)
            } else {
                Ok(kind)
            },
        }
    }
}

/// The trimmed bytes of a row's address.
pub open spec fn addr_norm_bytes(row: RawRow) -> Seq<u8> {
    trim_bytes(encode_utf8(row.address@))
}

/// How a plain zatoshi integer string parses: sign, emptiness, digits,
/// machine range, then the accepted amount range.
pub open spec fn zat_str_parse(t: Seq<u8>) -> Result<u64, AmountError> {
    if t.len() > 0 && t[0] == 0x2d {
        Err(AmountError::NegativeNotAllowed)
    } else if t.len() == 0 {
        Err(AmountError::EmptyInput)
    } else if !all_digits(t) {
        Err(AmountError::InvalidNumeric)
    } else if digits_val(t) > u64::MAX {
        Err(AmountError::Overflow)
    } else if digits_val(t) < ZATOSHI_MIN {
        Err(AmountError::BelowMinimum)
    } else if digits_val(t) > ZATOSHI_MAX {
        Err(AmountError::AboveMaximum { value: digits_val(t) as u64 })
    } else {
        Ok(digits_val(t) as u64)
    }
}

/// How a row's amount parses: a minor-unit integer string wins over a
/// decimal major-unit string; both empty-after-trim and absent are rejected.
pub open spec fn amount_check(row: RawRow) -> Result<u64, AmountError> {
    match row.amount_zatoshis {
        Some(z) => if trim_bytes(encode_utf8(z@)).len() == 0 {
            Err(AmountError::EmptyInput)
        } else {
            zat_str_parse(trim_bytes(encode_utf8(z@)))
        },
        None => match row.amount_zec {
            Some(d) => if trim_bytes(encode_utf8(d@)).len() == 0 {
                Err(AmountError::EmptyInput)
            } else {
                zec_parse(trim_bytes(encode_utf8(d@)))
            },
            None => Err(AmountError::EmptyInput),
        },
    }
}

/// How a row's memo validates: absent is fine, present must stay within 512
/// encoded bytes.
pub open spec fn memo_check(row: RawRow) -> Result<Option<Seq<char>>, TaxonomyCode> {
    match row.memo {
        None => Ok(None),
        Some(m) => if encode_utf8(m@).len() > 512 {
            Err(TaxonomyCode::Validation1004)
        } else {
            Ok(Some(m@))
        },
    }
}

/// Validate one row's address against the expected network.
fn validate_address_row(row: &RawRow, expected_network: Network) -> (r: Result<
    RecipientAddressType,
    BatchValidationIssue,
>)
    ensures
        match r {
            Ok(kind) => addr_check(addr_norm_bytes(*row), expected_network) == Ok::<
                RecipientAddressType,
                TaxonomyCode,
            >(kind),
            Err(iss) => addr_check(addr_norm_bytes(*row), expected_network) == Err::<
                RecipientAddressType,
                TaxonomyCode,
            >(iss.code) && iss.row_number == Some(row.row_number) && issue_column(iss) == Some(
                "address"@,
            ),
        },
        r is Ok ==> is_ascii_bytes(addr_norm_bytes(*row)),
{
    let b = row.address.as_str().as_bytes();
    let (st, en) = trim_range(b);
    let t = copy_range(b, st, en);
    let ghost tb = addr_norm_bytes(*row);
    proof {
        assert(t@ == tb);
    }
    if t.len() == 0 {
        return Err(BatchValidationIssue::new(
            TaxonomyCode::Validation1001,
            Some(row.row_number),
            Some("address"),
            "address is empty",
        ));
    }
    if !address_decodes(t.as_slice()) {
        return Err(BatchValidationIssue::new(
            TaxonomyCode::Validation1001,
            Some(row.row_number),
            Some("address"),
            "invalid address encoding",
        ));
    }
    let net_kind = classify_prefix(&t);
    let (net, kind) = match net_kind {
        Some(pair) => pair,
        None => {
            return Err(BatchValidationIssue::new(
                TaxonomyCode::Validation1001,
                Some(row.row_number),
                Some("address"),
                "unsupported address type",
            ));
        },
    };
    let expected = match expected_network {
        Network::Mainnet => AddressNet::Main,
        Network::Testnet => AddressNet::Test,
    };
    if !net_eq(net, expected) {
        return Err(BatchValidationIssue::new(
            TaxonomyCode::Validation1005,
            Some(row.row_number),
            Some("address"),
            "network mismatch between address and configuration",
        ));
    }
    if prefix_rule_check(&t, kind, expected_network) {
        return Err(BatchValidationIssue::new(
            TaxonomyCode::Validation1001,
            Some(row.row_number),
            Some("address"),
            "address prefix does not match its classified kind and network",
        ));
    }
    Ok(kind)
}

/// Whether two address networks are the same.
fn net_eq(a: AddressNet, b: AddressNet) -> (r: bool)
    ensures
        r == (a == b),
{
    match (a, b) {
        (AddressNet::Main, AddressNet::Main) => true,
        (AddressNet::Test, AddressNet::Test) => true,
        (AddressNet::Regtest, AddressNet::Regtest) => true,
        _ => false,
    }
}

/// Whether `v` starts with the bytes of `p`.
pub(crate) fn has_prefix(v: &Vec<u8>, p: &str) -> (r: bool)
    ensures
        r == pre(v@, p@),
{
    let pb = p.as_bytes();
    if pb.len() > v.len() {
        return false;
    }
    let mut i: usize = 0;
    while i < pb.len()
        invariant
            0 <= i <= pb@.len() <= v@.len(),
            pb@ == encode_utf8(p@),
            forall|j: int| 0 <= j < i ==> #[trigger] v@[j] == pb@[j],
        decreases pb@.len() - i,
    {
        if v[i] != pb[i] {
            proof {
                assert(v@.take(pb@.len() as int)[i as int] != pb@[i as int]);
            }
            return false;
        }
        i = i + 1;
    }
    proof {
        assert(v@.take(pb@.len() as int) =~= pb@);
    }
    true
}

/// Classify a decodable address by its prefix table.
fn classify_prefix(t: &Vec<u8>) -> (r: Option<(AddressNet, RecipientAddressType)>)
    ensures
        r == addr_net_kind(t@),
{
    if has_prefix(t, "u1") {
        Some((AddressNet::Main, RecipientAddressType::Unified))
    } else if has_prefix(t, "utest1") {
        Some((AddressNet::Test, RecipientAddressType::Unified))
    } else if has_prefix(t, "uregtest1") {
        Some((AddressNet::Regtest, RecipientAddressType::Unified))
    } else if has_prefix(t, "ztestsapling") {
        Some((AddressNet::Test, RecipientAddressType::Sapling))
    } else if has_prefix(t, "zregtestsapling") {
        Some((AddressNet::Regtest, RecipientAddressType::Sapling))
    } else if has_prefix(t, "zs") {
        Some((AddressNet::Main, RecipientAddressType::Sapling))
    } else if has_prefix(t, "zc") || has_prefix(t, "zt") {
        None
    } else if has_prefix(t, "texregtest1") {
        Some((AddressNet::Regtest, RecipientAddressType::Transparent))
    } else if has_prefix(t, "textest1") {
        Some((AddressNet::Test, RecipientAddressType::Transparent))
    } else if has_prefix(t, "tex1") {
        Some((AddressNet::Main, RecipientAddressType::Transparent))
    } else if has_prefix(t, "t1") || has_prefix(t, "t3") {
        Some((AddressNet::Main, RecipientAddressType::Transparent))
    } else if has_prefix(t, "tm") || has_prefix(t, "t2") {
        Some((AddressNet::Test, RecipientAddressType::Transparent))
    } else {
        None
    }
}

/// Evaluate the defensive prefix cross-check; true means violated.
fn prefix_rule_check(t: &Vec<u8>, kind: RecipientAddressType, network: Network) -> (r: bool)
    ensures
        r == prefix_rule_violated(t@, kind, network),
{
    match (kind, network) {
        (RecipientAddressType::Unified, Network::Mainnet) => !has_prefix(t, "u1"),
        (RecipientAddressType::Unified, Network::Testnet) => !has_prefix(t, "utest1"),
        (RecipientAddressType::Sapling, Network::Mainnet) => !has_prefix(t, "zs"),
        (RecipientAddressType::Sapling, Network::Testnet) => !has_prefix(t, "ztestsapling"),
        (RecipientAddressType::Transparent, Network::Mainnet) => {
            let ok = has_prefix(t, "t1") || has_prefix(t, "t3");
            !ok
        },
        (RecipientAddressType::Transparent, Network::Testnet) => false,
    }
}

/// Validate one row's amount.
fn validate_amount_row(row: &RawRow) -> (r: Result<Zatoshi, BatchValidationIssue>)
    ensures
        match r {
            Ok(z) => amount_check(*row) == Ok::<u64, AmountError>(z.zat()) && z.wf(),
            Err(iss) => amount_check(*row) is Err && iss.code == TaxonomyCode::Validation1002
                && iss.row_number == Some(row.row_number) && issue_column(iss) == Some("amount"@),
        },
{
    let parsed: Result<Zatoshi, AmountError> = if let Some(zat) = &row.amount_zatoshis {
        let b = zat.as_str().as_bytes();
        let (st, en) = trim_range(b);
        if st == en {
            Err(AmountError::EmptyInput)
        } else {
            let t = copy_range(b, st, en);
            parse_zatoshis_bytes(&t)
        }
    } else if let Some(zec) = &row.amount_zec {
        let b = zec.as_str().as_bytes();
        let (st, en) = trim_range(b);
        if st == en {
            Err(AmountError::EmptyInput)
        } else {
            Zatoshi::from_zec_str(zec.as_str())
        }
    } else {
        Err(AmountError::EmptyInput)
    };
    match parsed {
        Ok(z) => Ok(z),
        Err(_) => Err(BatchValidationIssue::new(
            TaxonomyCode::Validation1002,
            Some(row.row_number),
            Some("amount"),
            "invalid amount",
        )),
    }
}

/// Parse a trimmed minor-unit integer byte string.
fn parse_zatoshis_bytes(t: &Vec<u8>) -> (r: Result<Zatoshi, AmountError>)
    ensures
        match r {
            Ok(z) => zat_str_parse(t@) == Ok::<u64, AmountError>(z.zat()) && z.wf(),
            Err(e) => zat_str_parse(t@) == Err::<u64, AmountError>(e),
        },
{
    if t.len() > 0 && t[0] == 0x2d {
        return Err(AmountError::NegativeNotAllowed);
    }
    if t.len() == 0 {
        return Err(AmountError::EmptyInput);
    }
    if !crate::types::all_digits_vec(t) {
        return Err(AmountError::InvalidNumeric);
    }
    match parse_dec_u64(t.as_slice()) {
        Some(v) => Zatoshi::new(v),
        None => Err(AmountError::Overflow),
    }
}

/// Validate one row's memo.
fn validate_memo_row(row: &RawRow) -> (r: Result<Option<String>, BatchValidationIssue>)
    ensures
        match r {
            Ok(m) => memo_check(*row) == Ok::<Option<Seq<char>>, TaxonomyCode>(
                match m {
                    Some(s) => Some(s@),
                    None => None,
                },
            ),
            Err(iss) => memo_check(*row) is Err && iss.code == TaxonomyCode::Validation1004
                && iss.row_number == Some(row.row_number) && issue_column(iss) == Some("memo"@),
        },
{
    match &row.memo {
        None => Ok(None),
        Some(memo) => {
            let mb = memo.as_str().as_bytes();
            proof {
                assert(mb@ == encode_utf8(memo@));
            }
            if mb.len() > 512 {
                Err(BatchValidationIssue::new(
                    TaxonomyCode::Validation1004,
                    Some(row.row_number),
                    Some("memo"),
                    "memo exceeds 512 bytes",
                ))
            } else {
                let c = memo.clone();
                proof {
                    assert(row.memo matches Some(mm) && mm@ == memo@);
                    assert(c@ == memo@);
                }
                Ok(Some(c))
            }
        },
    }
}


/// The ghost model of one validated recipient: what validation promises
/// about each field, with strings at byte level.
pub struct RecipientModel {
    pub row_number: usize,
    pub kind: RecipientAddressType,
    pub address: Seq<u8>,
    pub amount: u64,
    pub memo: Option<Seq<char>>,
    pub label: Option<Seq<u8>>,
}

/// A row passes when its address, amount, and memo all pass.
pub open spec fn row_ok(row: RawRow, net: Network) -> bool {
    addr_check(addr_norm_bytes(row), net) is Ok && amount_check(row) is Ok && memo_check(row) is Ok
}

/// The classified kind of a passing row.
pub open spec fn row_kind(row: RawRow, net: Network) -> RecipientAddressType {
    addr_check(addr_norm_bytes(row), net)->Ok_0
}

/// The parsed amount of a passing row.
pub open spec fn row_amount(row: RawRow) -> u64 {
    amount_check(row)->Ok_0
}

/// Whether a passing row's memo is present and non-empty.
pub open spec fn memo_nonempty(row: RawRow) -> bool {
    memo_check(row)->Ok_0 matches Some(m) && m.len() > 0
}

/// Whether a passing row's memo is silently dropped: transparent addresses
/// carry no memo.
pub open spec fn memo_dropped(row: RawRow, net: Network) -> bool {
    row_kind(row, net) == RecipientAddressType::Transparent && memo_nonempty(row)
}

/// The issue metas one row contributes, in address, amount, memo order.
pub open spec fn row_metas(row: RawRow, net: Network) -> Seq<(u16, Option<usize>, Option<Seq<char>>)> {
    (match addr_check(addr_norm_bytes(row), net) {
        Err(c) => seq![(spec_taxonomy_code(c), Some(row.row_number), Some("address"@))],
        Ok(_) => Seq::empty(),
    }) + (match amount_check(row) {
        Err(_) => seq![(1002u16, Some(row.row_number), Some("amount"@))],
        Ok(_) => Seq::empty(),
    }) + (match memo_check(row) {
        Err(_) => seq![(1004u16, Some(row.row_number), Some("memo"@))],
        Ok(_) => Seq::empty(),
    })
}

/// The running total over the passing rows, in order; an addition that would
/// leave the accepted range is reported elsewhere and leaves the total as it
/// was.
pub open spec fn running_total(rows: Seq<RawRow>, net: Network) -> Option<nat>
    decreases rows.len(),
{
    if rows.len() == 0 {
        None
    } else {
        let prev = running_total(rows.drop_last(), net);
        let row = rows.last();
        if row_ok(row, net) {
            match prev {
                None => Some(row_amount(row) as nat),
                Some(t) => if t + row_amount(row) <= ZATOSHI_MAX {
                    Some((t + row_amount(row)) as nat)
                } else {
                    Some(t)
                },
            }
        } else {
            prev
        }
    }
}

/// Every issue meta the rows contribute, in row order, overflow findings
/// included.
pub open spec fn batch_issues(rows: Seq<RawRow>, net: Network) -> Seq<(u16, Option<usize>, Option<Seq<char>>)>
    decreases rows.len(),
{
    if rows.len() == 0 {
        Seq::empty()
    } else {
        let row = rows.last();
        batch_issues(rows.drop_last(), net) + row_metas(row, net) + (match running_total(
            rows.drop_last(),
            net,
        ) {
            Some(t) => if row_ok(row, net) && t + row_amount(row) > ZATOSHI_MAX {
                seq![(1013u16, Some(row.row_number), Some("amount"@))]
            } else {
                Seq::empty()
            },
            None => Seq::empty(),
        })
    }
}

/// The recipient cap: the configured maximum, clamped to a hard ceiling of
/// 500; a zero configuration means the ceiling itself.
pub open spec fn spec_batch_limit(config: BatchConfig) -> int {
    if config.max_recipients == 0 {
        500
    } else if config.max_recipients < 500 {
        config.max_recipients as int
    } else {
        500
    }
}

/// The batch-level issue metas raised before any row runs.
pub open spec fn header_metas(rows: Seq<RawRow>, config: BatchConfig) -> Seq<(u16, Option<usize>, Option<Seq<char>>)> {
    (if rows.len() == 0 {
        seq![(1012u16, None::<usize>, None::<Seq<char>>)]
    } else {
        Seq::empty()
    }) + (if rows.len() > spec_batch_limit(config) {
        seq![(1011u16, None::<usize>, None::<Seq<char>>)]
    } else {
        Seq::empty()
    })
}

/// Every issue meta a batch produces.
pub open spec fn all_metas(rows: Seq<RawRow>, config: BatchConfig) -> Seq<(u16, Option<usize>, Option<Seq<char>>)> {
    header_metas(rows, config) + batch_issues(rows, config.network)
}

/// The model a passing row validates to.
pub open spec fn model_of_row(row: RawRow, net: Network) -> RecipientModel {
    RecipientModel {
        row_number: row.row_number,
        kind: row_kind(row, net),
        address: addr_norm_bytes(row),
        amount: row_amount(row),
        memo: if memo_dropped(row, net) {
            None
        } else {
            memo_check(row)->Ok_0
        },
        label: match row.label {
            Some(l) => Some(trim_bytes(encode_utf8(l@))),
            None => None,
        },
    }
}

/// The models of every passing row, in order.
pub open spec fn spec_recipients(rows: Seq<RawRow>, net: Network) -> Seq<RecipientModel>
    decreases rows.len(),
{
    if rows.len() == 0 {
        Seq::empty()
    } else {
        spec_recipients(rows.drop_last(), net) + (if row_ok(rows.last(), net) {
            seq![model_of_row(rows.last(), net)]
        } else {
            Seq::empty()
        })
    }
}

/// The model an executable `ValidatedRecipient` presents.
pub open spec fn vr_model(v: ValidatedRecipient) -> RecipientModel {
    RecipientModel {
        row_number: v.row_number,
        kind: v.address_type,
        address: encode_utf8(v.recipient.address@),
        amount: v.recipient.amount.zat(),
        memo: match v.recipient.memo {
            Some(m) => Some(m@),
            None => None,
        },
        label: match v.recipient.label {
            Some(l) => Some(encode_utf8(l@)),
            None => None,
        },
    }
}

/// The sum of all model amounts.
pub open spec fn models_sum(rs: Seq<RecipientModel>) -> nat
    decreases rs.len(),
{
    if rs.len() == 0 {
        0
    } else {
        (models_sum(rs.drop_last()) + rs.last().amount) as nat
    }
}

/// The text of the warning for a memo dropped from a transparent recipient.
pub open spec fn memo_warning(row_number: usize) -> Seq<char> {
    "row "@ + ascii_str(dec_digits(row_number as nat)) + ": memo ignored for transparent address"@
}

/// The text of the warning for a duplicated address.
pub open spec fn dup_warning(row_number: usize, first_row: usize) -> Seq<char> {
    "duplicate address at row "@ + ascii_str(dec_digits(row_number as nat))
        + " (first seen at row "@ + ascii_str(dec_digits(first_row as nat)) + ")"@
}

/// The row number of the first model carrying the given normalized address.
pub open spec fn first_match_row(models: Seq<RecipientModel>, addr: Seq<u8>) -> usize
    decreases models.len(),
{
    if models.len() == 0 {
        0
    } else if models[0].address == addr {
        models[0].row_number
    } else {
        first_match_row(models.drop_first(), addr)
    }
}

/// The row number of the first validated recipient carrying the given
/// address text, if any.
pub open spec fn first_dup_row(vs: Seq<ValidatedRecipient>, addr: Seq<char>) -> Option<usize>
    decreases vs.len(),
{
    if vs.len() == 0 {
        None
    } else if vs[0].recipient.address@ == addr {
        Some(vs[0].row_number)
    } else {
        first_dup_row(vs.drop_first(), addr)
    }
}

/// A later row duplicates an earlier passing row's normalized address.
pub open spec fn dup_address(prior: Seq<RawRow>, row: RawRow, net: Network) -> bool {
    exists|j: int|
        0 <= j < spec_recipients(prior, net).len() && (#[trigger] spec_recipients(prior, net)[j]).address
            == addr_norm_bytes(row)
}

/// Every warning the rows produce, in order: one per dropped memo and one
/// per duplicated address, over passing rows, with the exact text.
pub open spec fn warnings_model(rows: Seq<RawRow>, net: Network) -> Seq<Seq<char>>
    decreases rows.len(),
{
    if rows.len() == 0 {
        Seq::empty()
    } else {
        let prior = rows.drop_last();
        let row = rows.last();
        warnings_model(prior, net) + (if row_ok(row, net) {
            (if memo_dropped(row, net) {
                seq![memo_warning(row.row_number)]
            } else {
                Seq::empty()
            }) + (if dup_address(prior, row, net) {
                seq![
                    dup_warning(
                        row.row_number,
                        first_match_row(spec_recipients(prior, net), addr_norm_bytes(row)),
                    ),
                ]
            } else {
                Seq::empty()
            })
        } else {
            Seq::empty()
        })
    }
}

/// Relates the first matching validated recipient to the first matching
/// model: same position, same row number.
proof fn lemma_first_match(vs: Seq<ValidatedRecipient>, models: Seq<RecipientModel>, a: Seq<char>)
    requires
        models == vs.map_values(|v: ValidatedRecipient| vr_model(v)),
        first_dup_row(vs, a) is Some,
    ensures
        first_match_row(models, encode_utf8(a)) == first_dup_row(vs, a)->Some_0,
    decreases vs.len(),
{
    assert(models.len() == vs.len());
    if vs.len() > 0 {
        assert(models[0] == vr_model(vs[0]));
        if vs[0].recipient.address@ == a {
            assert(models[0].address == encode_utf8(a));
        } else {
            assert(models[0].address != encode_utf8(a)) by {
                if models[0].address == encode_utf8(a) {
                    lemma_encode_utf8_injective(vs[0].recipient.address@, a);
                }
            }
            assert(models.drop_first() =~= vs.drop_first().map_values(
                |v: ValidatedRecipient| vr_model(v),
            ));
            lemma_first_match(vs.drop_first(), models.drop_first(), a);
        }
    }
}

/// UTF-8 encoding never collides: equal encodings come from equal strings.
pub proof fn lemma_encode_utf8_injective(a: Seq<char>, b: Seq<char>)
    requires
        encode_utf8(a) == encode_utf8(b),
    ensures
        a == b,
{
    vstd::utf8::encode_utf8_decode_utf8(a);
    vstd::utf8::encode_utf8_decode_utf8(b);
}

/// When no row issue arose, the running total is the model sum and stays in
/// range.
pub proof fn lemma_total_is_sum(rows: Seq<RawRow>, net: Network)
    requires
        batch_issues(rows, net).len() == 0,
    ensures
        rows.len() == 0 ==> running_total(rows, net) is None,
        rows.len() > 0 ==> running_total(rows, net) == Some(models_sum(spec_recipients(rows, net))),
        models_sum(spec_recipients(rows, net)) <= ZATOSHI_MAX,
        rows.len() > 0 ==> models_sum(spec_recipients(rows, net)) >= ZATOSHI_MIN,
    decreases rows.len(),
{
    if rows.len() > 0 {
        let prior = rows.drop_last();
        let row = rows.last();
        lemma_total_is_sum(prior, net);
        assert(row_ok(row, net));
        assert(row_amount(row) >= ZATOSHI_MIN && row_amount(row) <= ZATOSHI_MAX) by {
            lemma_row_amount_range(row);
        }
        let rs = spec_recipients(rows, net);
        assert(rs.drop_last() =~= spec_recipients(prior, net));
        assert(rs.last() == model_of_row(row, net));
    }
}

/// A passing amount lies inside the accepted range.
pub proof fn lemma_row_amount_range(row: RawRow)
    requires
        amount_check(row) is Ok,
    ensures
        ZATOSHI_MIN <= row_amount(row) <= ZATOSHI_MAX,
{
}

/// Validate every row of a batch; reject the whole batch on any issue.
///
/// On success the batch holds one validated recipient per row, in order, a
/// total equal to the checked sum of all amounts, and one warning per
/// dropped memo or duplicated address. On failure every issue of every row
/// is collected, with its code, row, and column.
/// The row number of the first already-validated recipient carrying the
/// same normalized address, if any.
fn find_dup(validated: &Vec<ValidatedRecipient>, normalized: &String) -> (found: Option<usize>)
    ensures
        (found is Some) <==> exists|p: int|
            0 <= p < validated@.len() && (#[trigger] validated@[p]).recipient.address@
                == normalized@,
        found == first_dup_row(validated@, normalized@),
{
    let mut k: usize = 0;
    proof {
        assert(validated@.subrange(0, validated@.len() as int) =~= validated@);
    }
    while k < validated.len()
        invariant
            0 <= k <= validated@.len(),
            forall|p: int|
                0 <= p < k ==> (#[trigger] validated@[p]).recipient.address@ != normalized@,
            first_dup_row(validated@, normalized@) == first_dup_row(
                validated@.subrange(k as int, validated@.len() as int),
                normalized@,
            ),
        decreases validated@.len() - k,
    {
        proof {
            let rest = validated@.subrange(k as int, validated@.len() as int);
            assert(rest[0] == validated@[k as int]);
            assert(rest.drop_first() =~= validated@.subrange(k + 1, validated@.len() as int));
        }
        if validated[k].recipient.address.eq(normalized) {
            return Some(validated[k].row_number);
        }
        k = k + 1;
    }
    proof {
        assert(validated@.subrange(validated@.len() as int, validated@.len() as int)
            =~= Seq::<ValidatedRecipient>::empty());
    }
    None
}

/// Fold one fully valid row into the running batch state: drop a transparent
/// memo with a warning, note duplicate addresses, accumulate the total with
/// overflow attribution, and append the validated recipient.
#[verifier::rlimit(100)]
#[verifier::spinoff_prover]
fn assemble_valid_row(
    row: &RawRow,
    network: Network,
    address_type: RecipientAddressType,
    amount: Zatoshi,
    memo0: Option<String>,
    issues: &mut Vec<BatchValidationIssue>,
    warnings: &mut Vec<String>,
    validated: &mut Vec<ValidatedRecipient>,
    total_in: Option<Zatoshi>,
    Ghost(prior): Ghost<Seq<RawRow>>,
) -> (total_out: Option<Zatoshi>)
    requires
        row_ok(*row, network),
        addr_check(addr_norm_bytes(*row), network) == Ok::<RecipientAddressType, TaxonomyCode>(
            address_type,
        ),
        is_ascii_bytes(addr_norm_bytes(*row)),
        amount_check(*row) == Ok::<u64, AmountError>(amount.zat()),
        amount.wf(),
        memo_check(*row) == Ok::<Option<Seq<char>>, TaxonomyCode>(
            match memo0 {
                Some(m) => Some(m@),
                None => None,
            },
        ),
        old(validated)@.map_values(|v: ValidatedRecipient| vr_model(v)) =~= spec_recipients(
            prior,
            network,
        ),
        match total_in {
            None => running_total(prior, network) is None,
            Some(z) => running_total(prior, network) == Some(z.zat() as nat) && z.wf(),
        },
    ensures
        final(issues)@.map_values(|i: BatchValidationIssue| issue_meta(i)) =~= old(
            issues,
        )@.map_values(|i: BatchValidationIssue| issue_meta(i)) + (match running_total(
            prior,
            network,
        ) {
            Some(t) => if t + row_amount(*row) > ZATOSHI_MAX {
                seq![(1013u16, Some(row.row_number), Some("amount"@))]
            } else {
                Seq::empty()
            },
            None => Seq::empty(),
        }),
        final(validated)@.map_values(|v: ValidatedRecipient| vr_model(v)) =~= spec_recipients(
            prior,
            network,
        ) + seq![model_of_row(*row, network)],
        final(warnings)@.map_values(|w: String| w@) =~= old(warnings)@.map_values(
            |w: String| w@,
        ) + (if memo_dropped(*row, network) {
            seq![memo_warning(row.row_number)]
        } else {
            Seq::empty()
        }) + (if dup_address(prior, *row, network) {
            seq![
                dup_warning(
                    row.row_number,
                    first_match_row(spec_recipients(prior, network), addr_norm_bytes(*row)),
                ),
            ]
        } else {
            Seq::empty()
        }),
        match total_out {
            None => false,
            Some(z) => z.wf() && (match running_total(prior, network) {
                None => z.zat() == row_amount(*row),
                Some(t) => if t + row_amount(*row) <= ZATOSHI_MAX {
                    z.zat() == t + row_amount(*row)
                } else {
                    z.zat() == t
                },
            }),
        },
{
    let ghost wm0 = old(warnings)@.map_values(|w: String| w@);
    // memos are dropped, with a warning, on transparent recipients
    let mut memo = memo0;
    let drop_memo = address_type == RecipientAddressType::Transparent && (match &memo {
        Some(m) => m.as_str().as_bytes().len() > 0,
        None => false,
    });
    if drop_memo {
        let mut w = String::new();
        w.append("row ");
        let rn = crate::text::usize_to_string(row.row_number);
        w.append(rn.as_str());
        w.append(": memo ignored for transparent address");
        proof {
            assert(w@ =~= memo_warning(row.row_number));
        }
        let ghost ws0 = warnings@;
        warnings.push(w);
        proof {
            assert(warnings@.map_values(|w: String| w@) =~= ws0.map_values(|w: String| w@)
                + seq![memo_warning(row.row_number)]);
        }
        memo = None;
    }
    proof {
        match memo_check(*row) {
            Ok(Some(mm)) => {
                crate::text::lemma_encode_utf8_nonempty(mm);
            },
            _ => {},
        }
        assert(drop_memo == memo_dropped(*row, network));
    }

    // normalized address and duplicate detection
    let ab = row.address.as_str().as_bytes();
    let (ast, aen) = trim_range(ab);
    let av = copy_range(ab, ast, aen);
    proof {
        assert(av@ == addr_norm_bytes(*row));
    }
    let normalized = string_from_utf8(av);
    let first_seen = find_dup(validated, &normalized);
    let found = match first_seen {
        Some(_) => true,
        None => false,
    };
    let ghost models = spec_recipients(prior, network);
    proof {
        assert(encode_utf8(normalized@) == addr_norm_bytes(*row));
        if found {
            let p = choose|p: int|
                0 <= p < validated@.len() && (#[trigger] validated@[p]).recipient.address@
                    == normalized@;
            assert(validated@.map_values(|v: ValidatedRecipient| vr_model(v))[p] == models[p]);
            assert(models[p].address == encode_utf8(normalized@));
            assert(dup_address(prior, *row, network));
        } else {
            if dup_address(prior, *row, network) {
                let j = choose|j: int|
                    0 <= j < models.len() && (#[trigger] models[j]).address == addr_norm_bytes(
                        *row,
                    );
                assert(validated@.map_values(|v: ValidatedRecipient| vr_model(v))[j] == models[j]);
                let ghost vj = validated@[j];
                assert(encode_utf8(vj.recipient.address@) == addr_norm_bytes(*row));
                lemma_encode_utf8_injective(vj.recipient.address@, normalized@);
                assert(false);
            }
        }
    }
    let ghost wm1 = warnings@.map_values(|w: String| w@);
    if let Some(first_row) = first_seen {
        proof {
            lemma_first_match(
                validated@,
                validated@.map_values(|v: ValidatedRecipient| vr_model(v)),
                normalized@,
            );
            assert(first_row == first_match_row(models, addr_norm_bytes(*row)));
        }
        let mut w = String::new();
        w.append("duplicate address at row ");
        let rn = crate::text::usize_to_string(row.row_number);
        w.append(rn.as_str());
        w.append(" (first seen at row ");
        let fr = crate::text::usize_to_string(first_row);
        w.append(fr.as_str());
        w.append(")");
        proof {
            assert(w@ =~= dup_warning(row.row_number, first_row));
        }
        let ghost ws1 = warnings@;
        warnings.push(w);
        proof {
            assert(warnings@.map_values(|w: String| w@) =~= ws1.map_values(|w: String| w@)
                + seq![dup_warning(row.row_number, first_row)]);
        }
    }
    proof {
        assert(warnings@.map_values(|w: String| w@) =~= wm0 + (if memo_dropped(*row, network) {
            seq![memo_warning(row.row_number)]
        } else {
            Seq::<Seq<char>>::empty()
        }) + (if dup_address(prior, *row, network) {
            seq![
                dup_warning(
                    row.row_number,
                    first_match_row(spec_recipients(prior, network), addr_norm_bytes(*row)),
                ),
            ]
        } else {
            Seq::<Seq<char>>::empty()
        }));
    }

    // running total with overflow attribution
    let total_out = match total_in {
        Some(current) => {
            match current.checked_add(amount) {
                Ok(next) => Some(next),
                Err(_) => {
                    issues.push(BatchValidationIssue::new(
                        TaxonomyCode::Validation1013,
                        Some(row.row_number),
                        Some("amount"),
                        "batch total overflow while summing zatoshis",
                    ));
                    Some(current)
                },
            }
        },
        None => Some(amount),
    };

    let label = match &row.label {
        Some(l) => Some(trim_string(l.as_str())),
        None => None,
    };
    validated.push(ValidatedRecipient {
        row_number: row.row_number,
        address_type,
        recipient: Recipient { address: normalized, amount, memo, label },
    });
    proof {
        assert(validated@.last().recipient.address@ == ascii_str(addr_norm_bytes(*row)));
        crate::text::lemma_ascii_bytes_valid_utf8(addr_norm_bytes(*row));
        assert(vr_model(validated@.last()) == model_of_row(*row, network));
        assert(validated@.drop_last() =~= old(validated)@);
        assert(validated@.map_values(|v: ValidatedRecipient| vr_model(v)) =~= old(
            validated,
        )@.map_values(|v: ValidatedRecipient| vr_model(v)) + seq![
            vr_model(validated@.last()),
        ]);
        // the new seen entries still mirror the valid rows
        assert(forall|j: int|
            0 <= j < prior.len() ==> prior.push(*row)[j] == #[trigger] prior[j]);
        assert(prior.push(*row)[prior.len() as int] == *row);
    }
    total_out
}

/// Validate every row of a batch; reject the whole batch on any issue.
///
/// On success the batch holds one validated recipient per row, in order, a
/// total equal to the checked sum of all amounts, and one warning per
/// dropped memo or duplicated address. On failure every issue of every row
/// is collected, with its code, row, and column.
#[verifier::rlimit(100)]
#[verifier::spinoff_prover]
pub fn validate_batch(rows: Vec<RawRow>, config: &BatchConfig) -> (r: Result<
    ValidatedBatch,
    LaminarError,
>)
    ensures
        match r {
            Ok(vb) => all_metas(rows@, *config).len() == 0 && vb.network == config.network
                && vb.recipients@.map_values(|v: ValidatedRecipient| vr_model(v))
                == spec_recipients(rows@, config.network) && vb.total.wf() && Some(
                vb.total.zat() as nat,
            ) == running_total(rows@, config.network) && vb.total.zat() as nat == models_sum(
                spec_recipients(rows@, config.network),
            ) && vb.warnings@.map_values(|w: String| w@) == warnings_model(
                rows@,
                config.network,
            ),
            Err(e) => all_metas(rows@, *config).len() > 0 && (e matches
                LaminarError::BatchValidation(be) && be.issues@.map_values(
                |i: BatchValidationIssue| issue_meta(i),
            ) == all_metas(rows@, *config)),
        },
{
    let ghost net = config.network;
    let mut issues: Vec<BatchValidationIssue> = Vec::new();
    let mut warnings: Vec<String> = Vec::new();
    let mut validated: Vec<ValidatedRecipient> = Vec::new();

    if rows.len() == 0 {
        issues.push(BatchValidationIssue::new(
            TaxonomyCode::Validation1012,
            None,
            None,
            "batch has no rows",
        ));
    }
    let batch_limit: usize = if config.max_recipients == 0 {
        500
    } else if config.max_recipients < 500 {
        config.max_recipients
    } else {
        500
    };
    if rows.len() > batch_limit {
        issues.push(BatchValidationIssue::new(
            TaxonomyCode::Validation1011,
            None,
            None,
            "batch exceeds the recipient cap",
        ));
    }
    proof {
        assert(issues@.map_values(|i: BatchValidationIssue| issue_meta(i)) =~= header_metas(
            rows@,
            *config,
        ));
    }

    let mut total: Option<Zatoshi> = None;
    let mut idx: usize = 0;
    while idx < rows.len()
        invariant
            0 <= idx <= rows@.len(),
            net == config.network,
            issues@.map_values(|i: BatchValidationIssue| issue_meta(i)) =~= header_metas(
                rows@,
                *config,
            ) + batch_issues(rows@.take(idx as int), net),
            validated@.map_values(|v: ValidatedRecipient| vr_model(v)) =~= spec_recipients(
                rows@.take(idx as int),
                net,
            ),
            warnings@.map_values(|w: String| w@) =~= warnings_model(rows@.take(idx as int), net),
            match total {
                None => running_total(rows@.take(idx as int), net) is None,
                Some(z) => running_total(rows@.take(idx as int), net) == Some(z.zat() as nat)
                    && z.wf(),
            },
        decreases rows@.len() - idx,
    {
        let row = &rows[idx];
        let ghost prior = rows@.take(idx as int);
        proof {
            assert(rows@.take(idx + 1).drop_last() =~= prior);
            assert(rows@.take(idx + 1) =~= prior.push(rows@[idx as int]));
            assert(rows@.take(idx + 1).last() == rows@[idx as int]);
        }
        let addr_res = validate_address_row(row, config.network);
        let amount_res = validate_amount_row(row);
        let memo_res = validate_memo_row(row);

        let ghost issues0 = issues@;
        match (addr_res, amount_res, memo_res) {
            (Ok(address_type), Ok(amount), Ok(memo0)) => {
                proof {
                    assert(row_ok(rows@[idx as int], net));
                    assert(issues@.map_values(|i: BatchValidationIssue| issue_meta(i))
                        =~= issues0.map_values(|i: BatchValidationIssue| issue_meta(i))
                        + row_metas(rows@[idx as int], net));
                }
                total = assemble_valid_row(
                    row,
                    config.network,
                    address_type,
                    amount,
                    memo0,
                    &mut issues,
                    &mut warnings,
                    &mut validated,
                    total,
                    Ghost(prior),
                );
            },
            (ar, br, cr) => {
                if let Err(iss) = ar {
                    issues.push(iss);
                }
                if let Err(iss) = br {
                    issues.push(iss);
                }
                if let Err(iss) = cr {
                    issues.push(iss);
                }
                proof {
                    assert(issues@.map_values(|i: BatchValidationIssue| issue_meta(i))
                        =~= issues0.map_values(|i: BatchValidationIssue| issue_meta(i))
                        + row_metas(rows@[idx as int], net));
                    assert(!row_ok(rows@[idx as int], net));
                    assert(spec_recipients(rows@.take(idx + 1), net) =~= spec_recipients(
                        prior,
                        net,
                    ));
                    assert(batch_issues(rows@.take(idx + 1), net) =~= batch_issues(prior, net)
                        + row_metas(rows@[idx as int], net));
                }
            },
        }
        idx = idx + 1;
    }
    proof {
        assert(rows@.take(rows@.len() as int) =~= rows@);
    }

    if issues.len() > 0 {
        return Err(LaminarError::BatchValidation(BatchValidationError { issues }));
    }

    let total = match total {
        Some(t) => t,
        None => {
            proof {
                assert(rows@.len() > 0);
                assert(batch_issues(rows@, net).len() == 0);
                lemma_total_is_sum(rows@, net);
                assert(false);
            }
            return Err(LaminarError::taxonomy(
                TaxonomyCode::Validation1012,
                "batch has no valid recipients",
            ));
        },
    };
    proof {
        lemma_total_is_sum(rows@, net);
    }
    Ok(ValidatedBatch { recipients: validated, total, network: config.network, warnings })
}


/// Classify one address string against a network, outside any batch.
pub fn validate_address(address: &str, network: Network) -> (r: Result<
    RecipientAddressType,
    LaminarError,
>)
    ensures
        match r {
            Ok(kind) => addr_check(trim_bytes(encode_utf8(address@)), network) == Ok::<
                RecipientAddressType,
                TaxonomyCode,
            >(kind),
            Err(e) => e matches LaminarError::BatchValidation(be) && be.issues@.len() == 1
                && addr_check(trim_bytes(encode_utf8(address@)), network) == Err::<
                RecipientAddressType,
                TaxonomyCode,
            >(be.issues@[0].code),
        },
{
    let row = RawRow {
        row_number: 1,
        address: address.to_owned(),
        amount_zec: None,
        amount_zatoshis: Some("1".to_owned()),
        memo: None,
        label: None,
    };
    match validate_address_row(&row, network) {
        Ok(kind) => Ok(kind),
        Err(issue) => {
            let mut issues: Vec<BatchValidationIssue> = Vec::new();
            issues.push(issue);
            Err(LaminarError::BatchValidation(BatchValidationError { issues }))
        },
    }
}

/// Check that an amount lies in the accepted range.
pub fn validate_amount(amount: Zatoshi) -> (r: Result<(), LaminarError>)
    ensures
        r is Ok <==> amount.wf(),
        !(r is Ok) ==> (r matches Err(LaminarError::Taxonomy(t)) && t.code
            == TaxonomyCode::Validation1002),
{
    if amount.as_u64() < ZATOSHI_MIN {
        return Err(LaminarError::taxonomy(
            TaxonomyCode::Validation1002,
            "amount must be greater than zero",
        ));
    }
    if amount.as_u64() > ZATOSHI_MAX {
        return Err(LaminarError::taxonomy(
            TaxonomyCode::Validation1002,
            "amount exceeds maximum supply",
        ));
    }
    Ok(())
}

/// Check that an optional memo stays within 512 encoded bytes.
pub fn validate_memo(memo: Option<&str>) -> (r: Result<(), LaminarError>)
    ensures
        r is Ok <==> (match memo {
            Some(m) => encode_utf8(m@).len() <= 512,
            None => true,
        }),
        !(r is Ok) ==> (r matches Err(LaminarError::Taxonomy(t)) && t.code
            == TaxonomyCode::Validation1004),
{
    if let Some(value) = memo {
        let vb = value.as_bytes();
        proof {
            assert(vb@ == encode_utf8(value@));
        }
        if vb.len() > 512 {
            return Err(LaminarError::taxonomy(
                TaxonomyCode::Validation1004,
                "memo exceeds 512 bytes",
            ));
        }
    }
    Ok(())
}

} // verus!
