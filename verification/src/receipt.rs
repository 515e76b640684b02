//! Operator receipts: a flat summary of one payment request.

use vstd::prelude::*;
use vstd::utf8::encode_utf8;
use crate::text::{ascii_str, copy_range, is_ascii_bytes, string_from_utf8};
use crate::types::{zec_format, Network, TransactionIntent};

verus! {

/// One recipient as it appears on a receipt.
#[derive(Debug, Clone, PartialEq, Eq)]
pub struct ReceiptRecipient {
    pub address: String,
    pub amount_zatoshis: u64,
    pub amount_zec: String,
    pub memo: Option<String>,
    pub label: Option<String>,
}

/// A complete receipt for one constructed payment request.
#[derive(Debug, Clone, PartialEq, Eq)]
pub struct Receipt {
    pub laminar_version: String,
    pub timestamp: String,
    pub batch_id: String,
    pub network: Network,
    pub total_zatoshis: u64,
    pub total_zec: String,
    pub recipient_count: usize,
    pub recipients: Vec<ReceiptRecipient>,
    pub zip321_payload_hash: String,
    pub segments: usize,
}

/// What a receipt recipient must say about the intent recipient it mirrors.
pub open spec fn receipt_rec_matches(rr: ReceiptRecipient, r: crate::types::Recipient) -> bool {
    &&& rr.address@ == r.address@
    &&& rr.amount_zatoshis == r.amount.zat()
    &&& rr.amount_zec@ == ascii_str(zec_format(r.amount.zat()))
    &&& (match (rr.memo, r.memo) {
        (Some(a), Some(b)) => a@ == b@,
        (None, None) => true,
        _ => false,
    })
    &&& (match (rr.label, r.label) {
        (Some(a), Some(b)) => a@ == b@,
        (None, None) => true,
        _ => false,
    })
}

/// Summarize a constructed payment request into a receipt.
pub fn generate_receipt(intent: &TransactionIntent, segment_count: usize) -> (r: Receipt)
    ensures
        r.timestamp@ == intent.created_at@,
        r.batch_id@ == intent.id@,
        r.network == intent.network,
        r.total_zatoshis == intent.total_zat.zat(),
        r.total_zec@ == ascii_str(zec_format(intent.total_zat.zat())),
        r.recipient_count == intent.recipients@.len(),
        r.recipients@.len() == intent.recipients@.len(),
        forall|k: int|
            0 <= k < intent.recipients@.len() ==> receipt_rec_matches(
                #[trigger] r.recipients@[k],
                intent.recipients@[k],
            ),
        r.zip321_payload_hash@ == intent.payload_hash@,
        r.segments == segment_count,
{
    let mut recipients: Vec<ReceiptRecipient> = Vec::new();
    let mut i: usize = 0;
    while i < intent.recipients.len()
        invariant
            0 <= i <= intent.recipients@.len(),
            recipients@.len() == i,
            forall|k: int|
                0 <= k < i ==> receipt_rec_matches(
                    #[trigger] recipients@[k],
                    intent.recipients@[k],
                ),
        decreases intent.recipients@.len() - i,
    {
        let rec = &intent.recipients[i];
        recipients.push(ReceiptRecipient {
            address: rec.address.clone(),
            amount_zatoshis: rec.amount.as_u64(),
            amount_zec: rec.amount.to_zec_string(),
            memo: match &rec.memo {
                Some(m) => Some(m.clone()),
                None => None,
            },
            label: match &rec.label {
                Some(l) => Some(l.clone()),
                None => None,
            },
        });
        i = i + 1;
    }
    Receipt {
        laminar_version: laminar_version(),
        timestamp: intent.created_at.clone(),
        batch_id: intent.id.clone(),
        network: intent.network,
        total_zatoshis: intent.total_zat.as_u64(),
        total_zec: intent.total_zat.to_zec_string(),
        recipient_count: recipients.len(),
        recipients,
        zip321_payload_hash: intent.payload_hash.clone(),
        segments: segment_count,
    }
}

/// The crate version stamped on receipts.
fn laminar_version() -> (r: String)
    ensures
        r@ == "0.1.0"@,
{
    let mut s = String::new();
    s.append("0.1.0");
    proof {
        assert(s@ =~= "0.1.0"@);
    }
    s
}

/// The first `n` bytes of `s`, or all of it when shorter.
pub open spec fn prefix_bytes(s: Seq<u8>, n: int) -> Seq<u8> {
    if s.len() <= n {
        s
    } else {
        s.take(n)
    }
}

/// Take a prefix of up to `n` bytes of a string, backing off to the nearest
/// character boundary; an ASCII string is cut at exactly `n` bytes.
fn prefix_string(s: &str, n: usize) -> (r: String)
    ensures
        is_ascii_bytes(encode_utf8(s@)) ==> encode_utf8(r@) == prefix_bytes(
            encode_utf8(s@),
            n as int,
        ),
{
    let b = s.as_bytes();
    proof {
        assert(b@ == encode_utf8(s@));
        vstd::utf8::encode_utf8_valid_utf8(s@);
    }
    let mut end = if b.len() <= n {
        b.len()
    } else {
        n
    };
    while end > 0 && end < b.len() && 0x80 <= b[end] && b[end] < 0xc0
        invariant
            0 <= end <= b@.len(),
            is_ascii_bytes(b@) ==> end == (if b@.len() <= n {
                b@.len() as int
            } else {
                n as int
            }),
        decreases end,
    {
        end = end - 1;
    }
    proof {
        vstd::utf8::is_char_boundary_start_end_of_seq(b@);
        if end < b@.len() && end > 0 {
            vstd::utf8::is_char_boundary_iff_not_is_continuation_byte(b@, end as int);
        }
        assert(vstd::utf8::is_char_boundary(b@, end as int));
        vstd::utf8::valid_utf8_split(b@, end as int);
        assert(b@.subrange(0, end as int) =~= b@.take(end as int));
    }
    let v = copy_range(b, 0, end);
    string_from_utf8(v)
}

/// The default file name for a receipt: the date part of its timestamp and
/// the first eight characters of its batch identifier.
pub fn default_receipt_filename(receipt: &Receipt) -> (r: String)
    ensures
        is_ascii_bytes(encode_utf8(receipt.timestamp@)) && is_ascii_bytes(
            encode_utf8(receipt.batch_id@),
        ) ==> encode_utf8(r@) =~= encode_utf8("laminar-receipt-"@) + prefix_bytes(
            encode_utf8(receipt.timestamp@),
            10,
        ) + encode_utf8("-"@) + prefix_bytes(encode_utf8(receipt.batch_id@), 8) + encode_utf8(
            ".json"@,
        ),
{
    let mut out = String::new();
    out.append("laminar-receipt-");
    let date = prefix_string(receipt.timestamp.as_str(), 10);
    out.append(date.as_str());
    out.append("-");
    let batch8 = prefix_string(receipt.batch_id.as_str(), 8);
    out.append(batch8.as_str());
    out.append(".json");
    proof {
        if is_ascii_bytes(encode_utf8(receipt.timestamp@)) && is_ascii_bytes(
            encode_utf8(receipt.batch_id@),
        ) {
            lemma_encode_utf8_concat5(
                "laminar-receipt-"@,
                date@,
                "-"@,
                batch8@,
                ".json"@,
            );
            assert(out@ =~= "laminar-receipt-"@ + date@ + "-"@ + batch8@ + ".json"@);
        }
    }
    out
}

/// UTF-8 encoding distributes over a five-way concatenation.
proof fn lemma_encode_utf8_concat5(
    a: Seq<char>,
    b: Seq<char>,
    c: Seq<char>,
    d: Seq<char>,
    e: Seq<char>,
)
    ensures
        encode_utf8(a + b + c + d + e) == encode_utf8(a) + encode_utf8(b) + encode_utf8(c)
            + encode_utf8(d) + encode_utf8(e),
{
    lemma_encode_utf8_concat(a, b);
    lemma_encode_utf8_concat(a + b, c);
    lemma_encode_utf8_concat(a + b + c, d);
    lemma_encode_utf8_concat(a + b + c + d, e);
}

/// UTF-8 encoding distributes over concatenation.
pub proof fn lemma_encode_utf8_concat(a: Seq<char>, b: Seq<char>)
    ensures
        encode_utf8(a + b) == encode_utf8(a) + encode_utf8(b),
    decreases a.len(),
{
    if a.len() == 0 {
        assert(a + b =~= b);
        assert(encode_utf8(a) =~= Seq::<u8>::empty());
        assert(encode_utf8(a) + encode_utf8(b) =~= encode_utf8(b));
    } else {
        assert((a + b)[0] == a[0]);
        assert((a + b).drop_first() =~= a.drop_first() + b);
        lemma_encode_utf8_concat(a.drop_first(), b);
        assert(encode_utf8(a + b) =~= vstd::utf8::encode_scalar(a[0] as u32) + (encode_utf8(
            a.drop_first(),
        ) + encode_utf8(b)));
        assert(vstd::utf8::encode_scalar(a[0] as u32) + (encode_utf8(a.drop_first())
            + encode_utf8(b)) =~= (vstd::utf8::encode_scalar(a[0] as u32) + encode_utf8(
            a.drop_first(),
        )) + encode_utf8(b));
    }
}

} // verus!
