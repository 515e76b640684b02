//! Canonical ZIP-321 payment-request construction: the URI grammar, the
//! content hash, and the identifier and timestamp derived from it.

use base64::Engine;
use sha2::Digest;
use vstd::prelude::*;
use vstd::string::StringExecFns;
use vstd::utf8::encode_utf8;
use crate::decimal::dec_digits;
use crate::error::{LaminarError, TaxonomyCode};
use crate::hex::{hex_chars, to_lower_hex};
use crate::text::{ascii_str, usize_to_string};
use crate::types::{zec_format, Network, Recipient, TransactionIntent, Zatoshi, ZATOSHI_MAX,
    ZATOSHI_MIN};
use crate::validation::ValidatedRecipient;

verus! {

/// The ASCII bytes of the standard, padded base64 encoding of `data`, as
/// `base64::engine::general_purpose::STANDARD` computes it.
pub uninterp spec fn base64_of(data: Seq<u8>) -> Seq<u8>;

/// Relies on `base64`'s `STANDARD` engine: the encoding is a function of the
/// bytes alone, is ASCII, and spells four characters for every three bytes,
/// padded.
#[verifier::external_body]
pub fn base64_encode(data: &[u8]) -> (r: String)
    ensures
        r@ == ascii_str(base64_of(data@)),
        r@.len() == 4 * ((data@.len() + 2) / 3),
{
    base64::engine::general_purpose::STANDARD.encode(data)
}

/// The 32 bytes of the SHA-256 digest of `data`.
pub uninterp spec fn sha256_of(data: Seq<u8>) -> Seq<u8>;

/// Relies on `sha2::Sha256`: the digest is a function of the bytes alone and
/// is 32 bytes long.
#[verifier::external_body]
fn sha256(data: &[u8]) -> (r: Vec<u8>)
    ensures
        r@ == sha256_of(data@),
        r@.len() == 32,
{
    sha2::Sha256::digest(data).to_vec()
}

/// The hyphenated string form of the version-5 UUID of `data` under the
/// namespace UUID spelled by `ns`.
pub uninterp spec fn uuid5_of(ns: Seq<u8>, data: Seq<u8>) -> Seq<char>;

/// Relies on `uuid::Uuid::new_v5` and `to_string`: a name-based UUID is a
/// function of namespace and name alone, and renders as 36 hyphenated ASCII
/// characters.
#[verifier::external_body]
fn uuid_v5_string(ns: &[u8], data: &[u8]) -> (r: String)
    requires
        ns@.len() == 16,
    ensures
        r@ == uuid5_of(ns@, data@),
        r@.len() == 36,
        vstd::utf8::is_ascii_chars(r@),
{
    let mut bytes = [0u8; 16];
    bytes.copy_from_slice(ns);
    uuid::Uuid::new_v5(&uuid::Uuid::from_bytes(bytes), data).to_string()
}

/// The RFC 3339 rendering, in whole seconds and UTC `Z` form, of an epoch
/// second count.
pub uninterp spec fn rfc3339_of(secs: u64) -> Seq<char>;

/// Relies on `chrono::DateTime::from_timestamp` and `to_rfc3339_opts`: the
/// rendering is a function of the seconds alone and spells 20 ASCII
/// characters for any instant up to the year 9999.
#[verifier::external_body]
fn rfc3339_utc(secs: u64) -> (r: String)
    requires
        secs < 253_402_300_800,
    ensures
        r@ == rfc3339_of(secs),
        r@.len() == 20,
        vstd::utf8::is_ascii_chars(r@),
{
    match chrono::DateTime::from_timestamp(secs as i64, 0) {
        Some(dt) => dt.to_rfc3339_opts(chrono::SecondsFormat::Secs, true),
        None => String::new(),
    }
}

/// Whether a recipient has a memo worth encoding: present and non-empty.
pub open spec fn has_memo(r: Recipient) -> bool {
    r.memo matches Some(m) && m@.len() > 0
}

/// The memo characters of a recipient that has one.
pub open spec fn memo_chars(r: Recipient) -> Seq<char> {
    (r.memo->Some_0)@
}

/// The `.N` parameter suffix for recipient index `i`; empty for the first.
pub open spec fn sfx_chars(i: int) -> Seq<char> {
    if i == 0 {
        Seq::empty()
    } else {
        "."@ + ascii_str(dec_digits(i as nat))
    }
}

/// The base64 memo value characters of a recipient.
pub open spec fn memo_value_chars(r: Recipient) -> Seq<char> {
    ascii_str(base64_of(encode_utf8(memo_chars(r))))
}

/// The parameter group of recipient `i` in a multi-recipient URI:
/// `address{s}=A&amount{s}=V[&memo{s}=M]`.
pub open spec fn group_chars(r: Recipient, i: int) -> Seq<char> {
    "address"@ + sfx_chars(i) + "="@ + r.address@ + "&amount"@ + sfx_chars(i) + "="@ + ascii_str(
        zec_format(r.amount.zat()),
    ) + (if has_memo(r) {
        "&memo"@ + sfx_chars(i) + "="@ + memo_value_chars(r)
    } else {
        Seq::empty()
    })
}

/// The first `n` parameter groups, joined with `&`.
pub open spec fn groups_chars(rs: Seq<Recipient>, n: int) -> Seq<char>
    decreases n,
{
    if n <= 0 {
        Seq::empty()
    } else if n == 1 {
        group_chars(rs[0], 0)
    } else {
        groups_chars(rs, n - 1) + "&"@ + group_chars(rs[n - 1], n - 1)
    }
}

/// The canonical ZIP-321 URI of a recipient list.
///
/// A single recipient puts its address in the URI path; several recipients
/// use indexed `address`/`amount`/`memo` parameters, the first unsuffixed.
pub open spec fn uri_chars_of(rs: Seq<Recipient>) -> Seq<char> {
    if rs.len() == 0 {
        "zcash:"@
    } else if rs.len() == 1 {
        "zcash:"@ + rs[0].address@ + "?amount="@ + ascii_str(zec_format(rs[0].amount.zat())) + (
        if has_memo(rs[0]) {
            "&memo="@ + memo_value_chars(rs[0])
        } else {
            Seq::empty()
        })
    } else {
        "zcash:?"@ + groups_chars(rs, rs.len() as int)
    }
}

/// The recipients a validated list carries, in order.
pub open spec fn plain_recipients(vs: Seq<ValidatedRecipient>) -> Seq<Recipient> {
    vs.map_values(|v: ValidatedRecipient| v.recipient)
}

/// Append one recipient's parameter group to the URI under construction.
fn append_group(uri: &mut String, rec: &Recipient, i: usize)
    ensures
        final(uri)@ == old(uri)@ + group_chars(*rec, i as int),
{
    uri.append("address");
    if i > 0 {
        uri.append(".");
        let n = usize_to_string(i);
        uri.append(n.as_str());
    }
    uri.append("=");
    uri.append(rec.address.as_str());
    uri.append("&amount");
    if i > 0 {
        uri.append(".");
        let n = usize_to_string(i);
        uri.append(n.as_str());
    }
    uri.append("=");
    let amt = rec.amount.to_zec_string();
    uri.append(amt.as_str());
    let write_memo = match &rec.memo {
        Some(m) => !m.as_str().is_empty(),
        None => false,
    };
    if write_memo {
        if let Some(m) = &rec.memo {
            uri.append("&memo");
            if i > 0 {
                uri.append(".");
                let n = usize_to_string(i);
                uri.append(n.as_str());
            }
            uri.append("=");
            let mb = m.as_str().as_bytes();
            proof {
                assert(mb@ == encode_utf8(m@));
            }
            let encoded = base64_encode(mb);
            uri.append(encoded.as_str());
        }
    }
    assert(uri@ =~= old(uri)@ + group_chars(*rec, i as int));
}

/// Build the canonical ZIP-321 URI for a validated recipient list.
pub fn build_zip321_uri(recipients: &Vec<ValidatedRecipient>) -> (r: String)
    ensures
        r@ == uri_chars_of(plain_recipients(recipients@)),
{
    let ghost rs = plain_recipients(recipients@);
    let mut uri = String::new();
    if recipients.len() == 0 {
        uri.append("zcash:");
        proof {
            assert(uri@ =~= "zcash:"@);
        }
        return uri;
    }
    if recipients.len() == 1 {
        let rec = &recipients[0].recipient;
        uri.append("zcash:");
        uri.append(rec.address.as_str());
        uri.append("?amount=");
        let amt = rec.amount.to_zec_string();
        uri.append(amt.as_str());
        let write_memo = match &rec.memo {
            Some(m) => !m.as_str().is_empty(),
            None => false,
        };
        if write_memo {
            if let Some(m) = &rec.memo {
                uri.append("&memo=");
                let mb = m.as_str().as_bytes();
                proof {
                    assert(mb@ == encode_utf8(m@));
                }
                let encoded = base64_encode(mb);
                uri.append(encoded.as_str());
            }
        }
        proof {
            assert(rs[0] == recipients@[0].recipient);
            assert(uri@ =~= uri_chars_of(rs));
        }
        return uri;
    }
    uri.append("zcash:?");
    proof {
        assert(uri@ =~= "zcash:?"@ + groups_chars(rs, 0));
    }
    let mut i: usize = 0;
    while i < recipients.len()
        invariant
            0 <= i <= recipients@.len(),
            recipients@.len() > 1,
            rs == plain_recipients(recipients@),
            rs.len() == recipients@.len(),
            uri@ == "zcash:?"@ + groups_chars(rs, i as int),
        decreases recipients@.len() - i,
    {
        proof {
            assert(rs[i as int] == recipients@[i as int].recipient);
        }
        if i > 0 {
            uri.append("&");
        }
        let ghost uri0 = uri@;
        append_group(&mut uri, &recipients[i].recipient, i);
        proof {
            if i == 0 {
                assert(groups_chars(rs, 1) == group_chars(rs[0], 0));
                assert(uri@ =~= "zcash:?"@ + groups_chars(rs, i + 1));
            } else {
                assert(groups_chars(rs, i + 1) == groups_chars(rs, i as int) + "&"@ + group_chars(
                    rs[i as int],
                    i as int,
                ));
                assert(uri@ =~= "zcash:?"@ + groups_chars(rs, i + 1));
            }
        }
        i = i + 1;
    }
    proof {
        assert(uri@ =~= uri_chars_of(rs));
    }
    uri
}

/// The big-endian value of a byte string.
pub open spec fn be_val(s: Seq<u8>) -> nat
    decreases s.len(),
{
    if s.len() == 0 {
        0
    } else {
        (be_val(s.drop_last()) * 256 + s.last()) as nat
    }
}

/// 256 to the `n`-th power.
pub open spec fn pow256(n: nat) -> nat
    decreases n,
{
    if n == 0 {
        1
    } else {
        256 * pow256((n - 1) as nat)
    }
}

/// A big-endian byte string of length `n` stays below `256^n`.
pub proof fn lemma_be_val_bound(s: Seq<u8>)
    ensures
        be_val(s) < pow256(s.len()),
    decreases s.len(),
{
    if s.len() > 0 {
        lemma_be_val_bound(s.drop_last());
    }
}

/// The number of seconds in the representable date range.
pub const TIMESTAMP_MODULUS: u64 = 253_402_300_799;

/// The deterministic timestamp a digest yields: its first eight bytes read
/// big-endian, reduced modulo the representable range.
pub open spec fn spec_timestamp(digest: Seq<u8>) -> u64 {
    (be_val(digest.take(8)) % (TIMESTAMP_MODULUS as nat)) as u64
}

/// Read the first eight bytes of a digest as a big-endian integer.
fn be_u64(digest: &Vec<u8>) -> (r: u64)
    requires
        digest@.len() >= 8,
    ensures
        r == be_val(digest@.take(8)),
{
    let mut acc: u64 = 0;
    let mut i: usize = 0;
    while i < 8
        invariant
            0 <= i <= 8,
            digest@.len() >= 8,
            acc == be_val(digest@.take(i as int)),
        decreases 8 - i,
    {
        proof {
            lemma_be_val_bound(digest@.take(i as int));
            assert(pow256(digest@.take(i as int).len()) <= pow256(7)) by {
                lemma_pow256_mono(digest@.take(i as int).len(), 7);
            }
            assert(pow256(7) == 0x100000000000000) by {
                reveal_with_fuel(pow256, 8);
            }
            assert(digest@.take(i + 1).drop_last() =~= digest@.take(i as int));
            assert(digest@.take(i + 1).last() == digest@[i as int]);
        }
        acc = acc * 256 + digest[i] as u64;
        i = i + 1;
    }
    acc
}

/// `pow256` grows with its exponent.
proof fn lemma_pow256_mono(a: nat, b: nat)
    requires
        a <= b,
    ensures
        pow256(a) <= pow256(b),
    decreases b,
{
    if a < b {
        lemma_pow256_mono(a, (b - 1) as nat);
    }
}

/// The namespace UUID bytes under which request identifiers are derived.
pub open spec fn spec_namespace() -> Seq<u8> {
    seq![
        0x4fu8, 0x68, 0xb8, 0x0f, 0x0e, 0xc5, 0x52, 0xf4, 0x83, 0x57, 0x0b, 0x6b, 0x89, 0xdf,
        0x87, 0x54,
    ]
}

/// The namespace UUID bytes, as a vector.
fn namespace_bytes() -> (r: Vec<u8>)
    ensures
        r@ == spec_namespace(),
        r@.len() == 16,
{
    let mut v: Vec<u8> = Vec::new();
    v.push(0x4f);
    v.push(0x68);
    v.push(0xb8);
    v.push(0x0f);
    v.push(0x0e);
    v.push(0xc5);
    v.push(0x52);
    v.push(0xf4);
    v.push(0x83);
    v.push(0x57);
    v.push(0x0b);
    v.push(0x6b);
    v.push(0x89);
    v.push(0xdf);
    v.push(0x87);
    v.push(0x54);
    proof {
        assert(v@ =~= spec_namespace());
    }
    v
}

/// The checked sum of a recipient list, following one-by-one accumulation:
/// the first amount is taken as is, every further addition must stay inside
/// the accepted range; `None` reports the first overflow.
pub open spec fn try_sum(rs: Seq<Recipient>) -> Option<nat>
    decreases rs.len(),
{
    if rs.len() == 0 {
        None
    } else if rs.len() == 1 {
        Some(rs[0].amount.zat() as nat)
    } else {
        match try_sum(rs.drop_last()) {
            None => None,
            Some(t) => if ZATOSHI_MIN <= t + rs.last().amount.zat() <= ZATOSHI_MAX {
                Some((t + rs.last().amount.zat()) as nat)
            } else {
                None
            },
        }
    }
}

/// Once the running sum has failed on a prefix, the whole list fails.
proof fn lemma_try_sum_prefix_none(rs: Seq<Recipient>, i: int)
    requires
        1 <= i <= rs.len(),
        try_sum(rs.take(i)) is None,
    ensures
        try_sum(rs) is None,
    decreases rs.len() - i,
{
    if i < rs.len() {
        assert(rs.take(i + 1).drop_last() =~= rs.take(i));
        lemma_try_sum_prefix_none(rs, i + 1);
    } else {
        assert(rs.take(i) =~= rs);
    }
}

/// Sum a validated recipient list with checked addition.
pub(crate) fn sum_total(recipients: &Vec<ValidatedRecipient>) -> (r: Option<Zatoshi>)
    requires
        recipients@.len() > 0,
    ensures
        match r {
            Some(z) => try_sum(plain_recipients(recipients@)) == Some(z.zat() as nat),
            None => try_sum(plain_recipients(recipients@)) is None,
        },
{
    let ghost rs = plain_recipients(recipients@);
    let mut total = recipients[0].recipient.amount;
    let mut i: usize = 1;
    proof {
        assert(rs.take(1).len() == 1);
        assert(rs.take(1)[0] == rs[0]);
        assert(try_sum(rs.take(1)) == Some(rs[0].amount.zat() as nat));
    }
    while i < recipients.len()
        invariant
            1 <= i <= recipients@.len(),
            rs == plain_recipients(recipients@),
            rs.len() == recipients@.len(),
            try_sum(rs.take(i as int)) == Some(total.zat() as nat),
        decreases recipients@.len() - i,
    {
        proof {
            assert(rs.take(i + 1).drop_last() =~= rs.take(i as int));
            assert(rs.take(i + 1).last() == rs[i as int]);
            assert(rs[i as int] == recipients@[i as int].recipient);
        }
        total = match total.checked_add(recipients[i].recipient.amount) {
            Ok(next) => next,
            Err(_) => {
                proof {
                    assert(try_sum(rs.take(i + 1)) is None);
                    lemma_try_sum_prefix_none(rs, i + 1);
                }
                return None;
            },
        };
        i = i + 1;
    }
    proof {
        assert(rs.take(rs.len() as int) =~= rs);
    }
    Some(total)
}

/// Everything the Ok result of `construct_zip321` promises, as a predicate
/// over the input recipients and network alone: every field is a pure
/// function of them.
pub open spec fn intent_matches(intent: TransactionIntent, rs: Seq<Recipient>, network: Network)
    -> bool {
    let uri = uri_chars_of(rs);
    let ub = encode_utf8(uri);
    let digest = sha256_of(ub);
    &&& intent.schema_version@ == "1.0"@
    &&& intent.network == network
    &&& intent.recipients@ == rs
    &&& Some(intent.total_zat.zat() as nat) == try_sum(rs)
    &&& intent.zip321_uri@ == uri
    &&& intent.payload_bytes == ub.len()
    &&& intent.payload_hash@ == "sha256:"@ + hex_chars(digest)
    &&& intent.id@ == uuid5_of(spec_namespace(), digest)
    &&& intent.created_at@ == rfc3339_of(spec_timestamp(digest))
}

/// Construction is repeatable: two intents built from the same recipient
/// list and network agree on every derived field.
pub proof fn lemma_construct_deterministic(
    a: TransactionIntent,
    b: TransactionIntent,
    rs: Seq<Recipient>,
    network: Network,
)
    requires
        intent_matches(a, rs, network),
        intent_matches(b, rs, network),
    ensures
        a.id@ == b.id@,
        a.created_at@ == b.created_at@,
        a.zip321_uri@ == b.zip321_uri@,
        a.payload_hash@ == b.payload_hash@,
        a.payload_bytes == b.payload_bytes,
        a.total_zat == b.total_zat,
        a.recipients@ == b.recipients@,
{
    assert(a.total_zat.zat() == b.total_zat.zat());
    crate::types::lemma_zatoshi_eq(a.total_zat, b.total_zat);
}

/// Build the complete payment request for a validated batch.
pub fn construct_zip321(batch: &crate::validation::ValidatedBatch) -> (r: Result<
    TransactionIntent,
    LaminarError,
>)
    ensures
        match r {
            Ok(intent) => batch.recipients@.len() > 0 && try_sum(
                plain_recipients(batch.recipients@),
            ) is Some && intent_matches(intent, plain_recipients(batch.recipients@), batch.network),
            Err(e) => (batch.recipients@.len() == 0 && (e matches LaminarError::Taxonomy(t)
                && t.code == TaxonomyCode::Validation1012)) || (batch.recipients@.len() > 0
                && try_sum(plain_recipients(batch.recipients@)) is None && (e matches
                LaminarError::Taxonomy(t) && t.code == TaxonomyCode::Validation1013)),
        },
{
    if batch.recipients.len() == 0 {
        return Err(LaminarError::taxonomy(
            TaxonomyCode::Validation1012,
            "cannot construct a payment request for an empty recipient set",
        ));
    }
    let uri = build_zip321_uri(&batch.recipients);
    let us = uri.as_str();
    let ub = us.as_bytes();
    proof {
        assert(ub@ == encode_utf8(uri@));
    }
    let payload_bytes = ub.len();
    let digest = sha256(ub);
    let mut payload_hash = String::new();
    payload_hash.append("sha256:");
    let hexed = to_lower_hex(digest.as_slice());
    payload_hash.append(hexed.as_str());

    let ns = namespace_bytes();
    let id = uuid_v5_string(ns.as_slice(), digest.as_slice());

    let raw = be_u64(&digest);
    let secs = raw % TIMESTAMP_MODULUS;
    let created_at = rfc3339_utc(secs);

    let total_zat = match sum_total(&batch.recipients) {
        Some(t) => t,
        None => {
            return Err(LaminarError::taxonomy(
                TaxonomyCode::Validation1013,
                "overflow while summing recipients for the payment request",
            ));
        },
    };

    let mut recipients: Vec<Recipient> = Vec::new();
    let mut i: usize = 0;
    while i < batch.recipients.len()
        invariant
            0 <= i <= batch.recipients@.len(),
            recipients@ =~= plain_recipients(batch.recipients@).take(i as int),
        decreases batch.recipients@.len() - i,
    {
        recipients.push(clone_recipient(&batch.recipients[i].recipient));
        proof {
            assert(recipients@.last() == plain_recipients(batch.recipients@)[i as int]);
            assert(recipients@ =~= plain_recipients(batch.recipients@).take(i + 1));
        }
        i = i + 1;
    }
    proof {
        assert(plain_recipients(batch.recipients@).take(batch.recipients@.len() as int)
            =~= plain_recipients(batch.recipients@));
    }

    let mut schema_version = String::new();
    schema_version.append("1.0");
    proof {
        assert(schema_version@ =~= "1.0"@);
    }
    Ok(TransactionIntent {
        schema_version,
        id,
        created_at,
        network: batch.network,
        recipients,
        total_zat,
        zip321_uri: uri,
        payload_bytes,
        payload_hash,
    })
}

/// Copy a recipient field by field.
pub(crate) fn clone_recipient(r: &Recipient) -> (c: Recipient)
    ensures
        c == *r,
{
    Recipient {
        address: r.address.clone(),
        amount: r.amount,
        memo: match &r.memo {
            Some(m) => Some(m.clone()),
            None => None,
        },
        label: match &r.label {
            Some(l) => Some(l.clone()),
            None => None,
        },
    }
}

/// Hand back the canonical URI of an already-built request.
pub fn build_payment_request(intent: &TransactionIntent) -> (r: Result<String, LaminarError>)
    ensures
        r matches Ok(s) && s@ == intent.zip321_uri@,
{
    Ok(intent.zip321_uri.clone())
}

} // verus!
