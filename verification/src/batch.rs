//! Byte-budget segmentation: split an oversized validated batch into
//! payment requests whose encoded URIs each fit a caller-supplied cap.

use vstd::prelude::*;
use vstd::utf8::encode_utf8;
use crate::error::{spec_taxonomy_code, LaminarError, TaxonomyCode};
use crate::types::{Network, Recipient, TransactionIntent, ZATOSHI_MAX};
use crate::validation::{ValidatedBatch, ValidatedRecipient};
use crate::zip321::{build_zip321_uri, clone_recipient, construct_zip321, intent_matches,
    plain_recipients, sum_total, try_sum, uri_chars_of};

verus! {

/// Largest URI payload a single static QR image carries.
pub const PAYLOAD_LIMIT_QR_STATIC: usize = 2510;

/// Largest URI payload an animated multi-part sequence carries.
pub const PAYLOAD_LIMIT_QR_ANIMATED: usize = 29_000;

/// Largest URI payload a deep link carries.
pub const PAYLOAD_LIMIT_DEEPLINK: usize = 7200;

/// Whether appending one more recipient to a segment's list would push its
/// encoded URI past the byte budget.
pub open spec fn over_budget(seg: Seq<Recipient>, next: Recipient, max_payload_bytes: usize)
    -> bool {
    encode_utf8(uri_chars_of(seg + seq![next])).len() > max_payload_bytes
}

/// A batch split into byte-budgeted payment requests.
#[derive(Debug, Clone, PartialEq, Eq)]
pub struct SegmentedBatch {
    pub segments: Vec<TransactionIntent>,
    pub max_payload_bytes: usize,
    pub original_recipient_count: usize,
}

/// All recipients the segments carry, in order.
pub open spec fn segs_flat(segs: Seq<TransactionIntent>) -> Seq<Recipient>
    decreases segs.len(),
{
    if segs.len() == 0 {
        Seq::empty()
    } else {
        segs_flat(segs.drop_last()) + segs.last().recipients@
    }
}

/// The total number of recipients across the segments.
pub open spec fn seg_count_sum(segs: Seq<TransactionIntent>) -> nat
    decreases segs.len(),
{
    if segs.len() == 0 {
        0
    } else {
        (seg_count_sum(segs.drop_last()) + segs.last().recipients@.len()) as nat
    }
}

/// Flattening the segments yields exactly as many recipients as they count.
pub proof fn lemma_segs_flat_len(segs: Seq<TransactionIntent>)
    ensures
        segs_flat(segs).len() == seg_count_sum(segs),
    decreases segs.len(),
{
    if segs.len() > 0 {
        lemma_segs_flat_len(segs.drop_last());
    }
}

/// The plain sum of all recipient amounts.
pub open spec fn amounts_sum(rs: Seq<Recipient>) -> nat
    decreases rs.len(),
{
    if rs.len() == 0 {
        0
    } else {
        (amounts_sum(rs.drop_last()) + rs.last().amount.zat()) as nat
    }
}

/// Amount sums add over concatenation.
pub proof fn lemma_amounts_sum_concat(a: Seq<Recipient>, b: Seq<Recipient>)
    ensures
        amounts_sum(a + b) == amounts_sum(a) + amounts_sum(b),
    decreases b.len(),
{
    if b.len() == 0 {
        assert(a + b =~= a);
    } else {
        assert((a + b).drop_last() =~= a + b.drop_last());
        assert((a + b).last() == b.last());
        lemma_amounts_sum_concat(a, b.drop_last());
    }
}

/// A contiguous part of a list never sums to more than the whole.
pub proof fn lemma_amounts_sum_subrange(rs: Seq<Recipient>, lo: int, hi: int)
    requires
        0 <= lo <= hi <= rs.len(),
    ensures
        amounts_sum(rs.subrange(lo, hi)) <= amounts_sum(rs),
{
    let a = rs.subrange(0, lo);
    let b = rs.subrange(lo, hi);
    let c = rs.subrange(hi, rs.len() as int);
    assert(rs =~= a + b + c);
    lemma_amounts_sum_concat(a + b, c);
    lemma_amounts_sum_concat(a, b);
}

/// A non-empty list of in-range amounts whose plain sum stays under the cap
/// sums successfully, to exactly that plain sum.
pub proof fn lemma_try_sum_some(rs: Seq<Recipient>)
    requires
        rs.len() > 0,
        forall|j: int| 0 <= j < rs.len() ==> (#[trigger] rs[j]).amount.wf(),
        amounts_sum(rs) <= ZATOSHI_MAX,
    ensures
        try_sum(rs) == Some(amounts_sum(rs)),
    decreases rs.len(),
{
    assert(rs.last() == rs[rs.len() - 1]);
    if rs.len() == 1 {
        assert(rs.drop_last() =~= Seq::<Recipient>::empty());
        assert(rs.last() == rs[0]);
        assert(amounts_sum(rs) == rs[0].amount.zat());
    } else {
        let prior = rs.drop_last();
        assert(forall|j: int| 0 <= j < prior.len() ==> (#[trigger] prior[j]).amount.wf()) by {
            assert(forall|j: int| 0 <= j < prior.len() ==> prior[j] == rs[j]);
        }
        assert(prior =~= rs.subrange(0, rs.len() - 1));
        lemma_amounts_sum_subrange(rs, 0, rs.len() - 1);
        lemma_try_sum_some(prior);
        assert(amounts_sum(rs) == amounts_sum(prior) + rs.last().amount.zat());
        assert(rs.last().amount.wf());
        assert(try_sum(rs) == Some((amounts_sum(prior) + rs.last().amount.zat()) as nat));
    }
}

/// Copy a validated recipient field by field.
fn clone_validated(v: &ValidatedRecipient) -> (c: ValidatedRecipient)
    ensures
        c == *v,
{
    ValidatedRecipient {
        row_number: v.row_number,
        address_type: v.address_type,
        recipient: clone_recipient(&v.recipient),
    }
}

/// Build the payment request for one non-empty segment.
fn construct_segment(current: &Vec<ValidatedRecipient>, network: Network) -> (r: Result<
    TransactionIntent,
    LaminarError,
>)
    requires
        current@.len() > 0,
    ensures
        match r {
            Ok(intent) => try_sum(plain_recipients(current@)) is Some && intent_matches(
                intent,
                plain_recipients(current@),
                network,
            ),
            Err(e) => try_sum(plain_recipients(current@)) is None && (e matches
                LaminarError::Taxonomy(t) && t.code == TaxonomyCode::Validation1013),
        },
{
    let total = match sum_total(current) {
        Some(t) => t,
        None => {
            return Err(LaminarError::taxonomy(
                TaxonomyCode::Validation1013,
                "overflow while summing segment recipients",
            ));
        },
    };
    let mut copied: Vec<ValidatedRecipient> = Vec::new();
    let mut i: usize = 0;
    while i < current.len()
        invariant
            0 <= i <= current@.len(),
            copied@ =~= current@.take(i as int),
        decreases current@.len() - i,
    {
        copied.push(clone_validated(&current[i]));
        proof {
            assert(copied@ =~= current@.take(i + 1));
        }
        i = i + 1;
    }
    proof {
        assert(copied@ =~= current@);
    }
    let vb = ValidatedBatch {
        recipients: copied,
        total,
        network,
        warnings: Vec::new(),
    };
    match construct_zip321(&vb) {
        Ok(intent) => Ok(intent),
        Err(e) => {
            proof {
                assert(false);
            }
            Err(e)
        },
    }
}

/// Split a validated batch into payment requests whose encoded URIs each
/// fit `max_payload_bytes`, by greedy forward packing with one-step
/// rollback.
///
/// On success the segments' recipient lists concatenate back to the batch's
/// list exactly, every segment is non-empty and fits the budget, and each
/// segment is a complete, deterministic payment request. A single recipient
/// whose own URI exceeds the budget is a fatal error.
#[verifier::rlimit(100)]
#[verifier::spinoff_prover]
pub fn segment_batch(batch: &ValidatedBatch, max_payload_bytes: usize) -> (r: Result<
    SegmentedBatch,
    LaminarError,
>)
    ensures
        max_payload_bytes == 0 ==> (r matches Err(LaminarError::Taxonomy(t)) && t.code
            == TaxonomyCode::Validation1005),
        max_payload_bytes > 0 && batch.recipients@.len() == 0 ==> (r matches Err(
            LaminarError::Taxonomy(t),
        ) && t.code == TaxonomyCode::Validation1012),
        match r {
            Ok(sb) => {
                &&& max_payload_bytes > 0
                &&& sb.max_payload_bytes == max_payload_bytes
                &&& sb.original_recipient_count == batch.recipients@.len()
                &&& segs_flat(sb.segments@) == plain_recipients(batch.recipients@)
                &&& seg_count_sum(sb.segments@) == batch.recipients@.len()
                &&& forall|k: int|
                    0 <= k < sb.segments@.len() ==> {
                        &&& (#[trigger] sb.segments@[k]).recipients@.len() > 0
                        &&& sb.segments@[k].payload_bytes <= max_payload_bytes
                        &&& intent_matches(
                            sb.segments@[k],
                            sb.segments@[k].recipients@,
                            batch.network,
                        )
                    }
                &&& forall|k: int|
                    0 <= k < sb.segments@.len() - 1 ==> over_budget(
                        (#[trigger] sb.segments@[k]).recipients@,
                        sb.segments@[k + 1].recipients@[0],
                        max_payload_bytes,
                    )
            },
            Err(e) => e matches LaminarError::Taxonomy(t) && {
                &&& (spec_taxonomy_code(t.code) == 1005 || spec_taxonomy_code(t.code) == 1012
                    || spec_taxonomy_code(t.code) == 1010 || spec_taxonomy_code(t.code) == 1013)
                &&& t.code == TaxonomyCode::Validation1005 ==> max_payload_bytes == 0
                &&& t.code == TaxonomyCode::Validation1012 ==> (max_payload_bytes > 0
                    && batch.recipients@.len() == 0)
            },
        },
        (r matches Err(LaminarError::Taxonomy(t)) && t.code == TaxonomyCode::Validation1010)
            ==> exists|j: int|
            0 <= j < batch.recipients@.len() && encode_utf8(
                uri_chars_of(seq![(#[trigger] batch.recipients@[j]).recipient]),
            ).len() > max_payload_bytes,
        (max_payload_bytes > 0 && batch.recipients@.len() > 0 && encode_utf8(
            uri_chars_of(seq![batch.recipients@[0].recipient]),
        ).len() > max_payload_bytes) ==> (r matches Err(LaminarError::Taxonomy(t)) && t.code
            == TaxonomyCode::Validation1010),
        ({
            &&& max_payload_bytes > 0
            &&& batch.recipients@.len() > 0
            &&& (forall|j: int|
                0 <= j < batch.recipients@.len() ==> encode_utf8(
                    uri_chars_of(seq![(#[trigger] batch.recipients@[j]).recipient]),
                ).len() <= max_payload_bytes)
            &&& (forall|j: int|
                0 <= j < batch.recipients@.len() ==> (#[trigger] batch.recipients@[j]).recipient
                    .amount.wf())
            &&& amounts_sum(plain_recipients(batch.recipients@)) <= ZATOSHI_MAX
        }) ==> (r is Ok),
{
    if max_payload_bytes == 0 {
        return Err(LaminarError::taxonomy(
            TaxonomyCode::Validation1005,
            "the payload byte budget must be greater than zero",
        ));
    }
    if batch.recipients.len() == 0 {
        return Err(LaminarError::taxonomy(
            TaxonomyCode::Validation1012,
            "cannot segment an empty validated batch",
        ));
    }
    let ghost all = batch.recipients@;
    let ghost rs = plain_recipients(all);
    let mut segments: Vec<TransactionIntent> = Vec::new();
    let mut current: Vec<ValidatedRecipient> = Vec::new();
    let ghost mut lo: int = 0;
    let mut i: usize = 0;
    while i < batch.recipients.len()
        invariant
            0 <= lo <= i <= all.len(),
            all == batch.recipients@,
            rs == plain_recipients(all),
            rs.len() == all.len(),
            max_payload_bytes > 0,
            current@ =~= all.subrange(lo, i as int),
            segs_flat(segments@) + plain_recipients(current@) =~= plain_recipients(
                all.take(i as int),
            ),
            current@.len() > 0 ==> encode_utf8(uri_chars_of(plain_recipients(current@))).len()
                <= max_payload_bytes,
            i > 0 ==> encode_utf8(uri_chars_of(seq![all[0].recipient])).len()
                <= max_payload_bytes,
            forall|k: int|
                0 <= k < segments@.len() ==> {
                    &&& (#[trigger] segments@[k]).recipients@.len() > 0
                    &&& segments@[k].payload_bytes <= max_payload_bytes
                    &&& intent_matches(segments@[k], segments@[k].recipients@, batch.network)
                },
            forall|k: int|
                0 <= k < segments@.len() - 1 ==> over_budget(
                    (#[trigger] segments@[k]).recipients@,
                    segments@[k + 1].recipients@[0],
                    max_payload_bytes,
                ),
            segments@.len() > 0 ==> current@.len() > 0,
            segments@.len() > 0 && current@.len() > 0 ==> over_budget(
                segments@.last().recipients@,
                plain_recipients(current@)[0],
                max_payload_bytes,
            ),
        decreases all.len() - i,
    {
        let ghost cur0 = current@;
        let ghost fl0 = segs_flat(segments@);
        current.push(clone_validated(&batch.recipients[i]));
        proof {
            assert(current@ =~= cur0.push(all[i as int]));
            assert(current@ =~= all.subrange(lo, i + 1));
        }
        let uri = build_zip321_uri(&current);
        let ub = uri.as_str().as_bytes();
        proof {
            assert(ub@ == encode_utf8(uri@));
        }
        if ub.len() <= max_payload_bytes {
            proof {
                assert(plain_recipients(current@) =~= plain_recipients(cur0).push(rs[i as int]));
                assert(plain_recipients(all.take(i + 1)) =~= plain_recipients(all.take(i as int))
                    .push(rs[i as int]));
                assert(fl0 + plain_recipients(current@) =~= (fl0 + plain_recipients(cur0)).push(
                    rs[i as int],
                ));
                assert(segs_flat(segments@) + plain_recipients(current@) =~= plain_recipients(
                    all.take(i + 1),
                ));
                if cur0.len() > 0 {
                    assert(current@[0] == cur0[0]);
                    assert(plain_recipients(current@)[0] == plain_recipients(cur0)[0]);
                }
                if i == 0 {
                    assert(plain_recipients(current@) =~= seq![all[0].recipient]);
                }
            }
            i = i + 1;
            continue;
        }
        // the appended recipient pushed this segment over the budget
        let overflow = match current.pop() {
            Some(v) => v,
            None => {
                proof {
                    assert(false);
                }
                return Err(LaminarError::taxonomy(TaxonomyCode::Generic9999, "unreachable"));
            },
        };
        proof {
            assert(current@ =~= all.subrange(lo, i as int));
        }
        if current.len() == 0 {
            proof {
                assert(lo == i);
                assert(all.subrange(lo, i + 1) =~= seq![all[i as int]]);
                assert(plain_recipients(seq![all[i as int]]) =~= seq![rs[i as int]]);
                assert(seq![batch.recipients@[i as int].recipient] =~= seq![rs[i as int]]);
            }
            return Err(LaminarError::taxonomy(
                TaxonomyCode::Validation1010,
                "a single recipient exceeds the payload byte budget",
            ));
        }
        let seg = match construct_segment(&current, batch.network) {
            Ok(seg) => seg,
            Err(e) => {
                proof {
                    lemma_failed_subchain(all, rs, lo, i as int, max_payload_bytes);
                }
                return Err(e);
            },
        };
        let ghost segs0 = segments@;
        let ghost lo0 = lo;
        segments.push(seg);
        proof {
            assert(segments@.drop_last() =~= segs0);
            assert(segs_flat(segments@) =~= segs_flat(segs0) + segments@.last().recipients@);
            assert(segments@.last().recipients@ == plain_recipients(all.subrange(lo, i as int)));
        }
        let mut fresh: Vec<ValidatedRecipient> = Vec::new();
        fresh.push(overflow);
        current = fresh;
        proof {
            assert(segs_flat(segments@) =~= segs_flat(segs0) + plain_recipients(
                all.subrange(lo, i as int),
            ));
            lo = i as int;
            assert(current@ =~= all.subrange(lo, i + 1));
            assert(plain_recipients(current@) =~= seq![rs[i as int]]);
            assert(plain_recipients(all.take(i + 1)) =~= plain_recipients(all.take(i as int))
                .push(rs[i as int]));
            assert(segs_flat(segments@) + plain_recipients(current@) =~= plain_recipients(
                all.take(i + 1),
            ));
            // the closed segment cannot take the recipient that now opens the
            // next one, and it could not take its own opener either
            assert(plain_recipients(all.subrange(lo0, i + 1)) =~= plain_recipients(
                all.subrange(lo0, i as int),
            ) + seq![rs[i as int]]);
            assert(over_budget(
                segments@.last().recipients@,
                plain_recipients(current@)[0],
                max_payload_bytes,
            ));
            assert(forall|k: int|
                0 <= k < segs0.len() ==> #[trigger] segments@[k] == segs0[k]);
            if segs0.len() > 0 {
                assert(segments@[segs0.len() - 1] == segs0.last());
                assert(segments@[segs0.len() as int].recipients@[0] == plain_recipients(
                    all.subrange(lo0, i as int),
                )[0]);
                assert(plain_recipients(all.subrange(lo0, i as int))[0] == all[lo0].recipient);
            }
        }
        let uri2 = build_zip321_uri(&current);
        let ub2 = uri2.as_str().as_bytes();
        proof {
            assert(ub2@ == encode_utf8(uri2@));
        }
        if ub2.len() > max_payload_bytes {
            proof {
                assert(current@ =~= seq![all[i as int]]);
                assert(plain_recipients(current@) =~= seq![rs[i as int]]);
                assert(seq![batch.recipients@[i as int].recipient] =~= seq![rs[i as int]]);
            }
            return Err(LaminarError::taxonomy(
                TaxonomyCode::Validation1010,
                "a single recipient exceeds the payload byte budget",
            ));
        }
        i = i + 1;
    }
    proof {
        assert(all.take(all.len() as int) =~= all);
    }
    if current.len() > 0 {
        let seg = match construct_segment(&current, batch.network) {
            Ok(seg) => seg,
            Err(e) => {
                proof {
                    lemma_failed_subchain(all, rs, lo, all.len() as int, max_payload_bytes);
                }
                return Err(e);
            },
        };
        let ghost segs0 = segments@;
        segments.push(seg);
        proof {
            assert(segments@.drop_last() =~= segs0);
            assert(segs_flat(segments@) =~= segs_flat(segs0) + segments@.last().recipients@);
            assert(segments@.last().recipients@ == plain_recipients(current@));
            assert(forall|k: int|
                0 <= k < segs0.len() ==> #[trigger] segments@[k] == segs0[k]);
            if segs0.len() > 0 {
                assert(segments@[segs0.len() - 1] == segs0.last());
                assert(segments@[segs0.len() as int].recipients@[0] == plain_recipients(
                    current@,
                )[0]);
            }
        }
    }
    proof {
        assert(segs_flat(segments@) =~= plain_recipients(all));
        lemma_segs_flat_len(segments@);
        assert(plain_recipients(all).len() == all.len());
    }
    Ok(SegmentedBatch {
        segments,
        max_payload_bytes,
        original_recipient_count: batch.recipients.len(),
    })
}

/// When a sub-chain of well-formed amounts fails to sum, the whole batch's
/// plain sum must already exceed the cap — so a failing segment contradicts
/// the success-owed hypotheses.
proof fn lemma_failed_subchain(
    all: Seq<ValidatedRecipient>,
    rs: Seq<Recipient>,
    lo: int,
    hi: int,
    max_payload_bytes: usize,
)
    requires
        rs == plain_recipients(all),
        0 <= lo < hi <= all.len(),
        try_sum(plain_recipients(all.subrange(lo, hi))) is None,
    ensures
        !((forall|j: int| 0 <= j < all.len() ==> (#[trigger] all[j]).recipient.amount.wf())
            && amounts_sum(rs) <= ZATOSHI_MAX),
{
    if (forall|j: int| 0 <= j < all.len() ==> (#[trigger] all[j]).recipient.amount.wf())
        && amounts_sum(rs) <= ZATOSHI_MAX {
        let sub = plain_recipients(all.subrange(lo, hi));
        assert(sub =~= rs.subrange(lo, hi));
        lemma_amounts_sum_subrange(rs, lo, hi);
        assert(forall|j: int| 0 <= j < sub.len() ==> (#[trigger] sub[j]).amount.wf()) by {
            assert(forall|j: int| 0 <= j < sub.len() ==> sub[j] == rs[lo + j]);
            assert(forall|j: int| 0 <= j < rs.len() ==> #[trigger] rs[j] == all[j].recipient);
        }
        lemma_try_sum_some(sub);
    }
}

/// Split a plain recipient list into chunks of at most `max_per_batch`.
pub fn segment_recipients(recipients: &Vec<Recipient>, max_per_batch: usize) -> (r: Result<
    Vec<Vec<Recipient>>,
    LaminarError,
>)
    ensures
        max_per_batch == 0 <==> (r matches Err(LaminarError::Taxonomy(t)) && t.code
            == TaxonomyCode::Validation1005),
        match r {
            Ok(chunks) => {
                &&& flat_chunks(chunks@) == recipients@
                &&& forall|k: int|
                    0 <= k < chunks@.len() ==> 0 < (#[trigger] chunks@[k])@.len() <= max_per_batch
                &&& forall|k: int|
                    0 <= k < chunks@.len() - 1 ==> (#[trigger] chunks@[k])@.len() == max_per_batch
            },
            Err(_) => true,
        },
{
    if max_per_batch == 0 {
        return Err(LaminarError::taxonomy(
            TaxonomyCode::Validation1005,
            "max_per_batch must be greater than zero",
        ));
    }
    let mut chunks: Vec<Vec<Recipient>> = Vec::new();
    let mut current: Vec<Recipient> = Vec::new();
    let mut i: usize = 0;
    while i < recipients.len()
        invariant
            0 <= i <= recipients@.len(),
            max_per_batch > 0,
            current@.len() < max_per_batch,
            flat_chunks(chunks@) + current@ =~= recipients@.take(i as int),
            forall|k: int|
                0 <= k < chunks@.len() ==> (#[trigger] chunks@[k])@.len() == max_per_batch,
        decreases recipients@.len() - i,
    {
        let ghost cur0 = current@;
        let ghost fl0 = flat_chunks(chunks@);
        current.push(clone_recipient(&recipients[i]));
        proof {
            assert(current@ =~= cur0.push(recipients@[i as int]));
            assert(recipients@.take(i + 1) =~= recipients@.take(i as int).push(
                recipients@[i as int],
            ));
            assert(fl0 + current@ =~= (fl0 + cur0).push(recipients@[i as int]));
            assert(flat_chunks(chunks@) + current@ =~= recipients@.take(i + 1));
        }
        if current.len() == max_per_batch {
            let ghost full = current@;
            let ghost chunks0 = chunks@;
            chunks.push(current);
            current = Vec::new();
            proof {
                assert(chunks@.drop_last() =~= chunks0);
                assert(flat_chunks(chunks@) =~= flat_chunks(chunks0) + full);
                assert(flat_chunks(chunks@) + current@ =~= recipients@.take(i + 1));
            }
        }
        i = i + 1;
    }
    proof {
        assert(recipients@.take(recipients@.len() as int) =~= recipients@);
    }
    if current.len() > 0 {
        let ghost full = current@;
        let ghost chunks0 = chunks@;
        chunks.push(current);
        proof {
            assert(chunks@.drop_last() =~= chunks0);
            assert(flat_chunks(chunks@) =~= flat_chunks(chunks0) + full);
        }
    }
    proof {
        assert(flat_chunks(chunks@) =~= recipients@);
    }
    Ok(chunks)
}

/// All recipients the chunks carry, in order.
pub open spec fn flat_chunks(chunks: Seq<Vec<Recipient>>) -> Seq<Recipient>
    decreases chunks.len(),
{
    if chunks.len() == 0 {
        Seq::empty()
    } else {
        flat_chunks(chunks.drop_last()) + chunks.last()@
    }
}

} // verus!
