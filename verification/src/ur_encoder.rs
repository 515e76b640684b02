//! Multi-part UR framing: fragment a byte payload into self-describing
//! `ur:bytes/<i>-<n>/<body>` parts, and reassemble parts back into bytes.

use vstd::prelude::*;
use crate::error::{LaminarError, TaxonomyCode};

verus! {

/// Every part string a payload yields at a given maximum fragment length:
/// the pure fragments, one per emission index below the fragment count.
pub open spec fn ur_parts_set(payload: Seq<u8>, max_len: usize) -> Set<Seq<char>> {
    Set::new(
        |s: Seq<char>|
            exists|i: nat| i < ur_fragment_count_of(payload, max_len) && s == ur_part_of(
                payload,
                max_len,
                i,
            ),
    )
}

/// Whether a fragment list is exactly what the encoder emits for `payload`
/// at maximum fragment length `max_len`, in emission order.
pub open spec fn is_encoding_of(frags: Seq<String>, payload: Seq<u8>, max_len: usize) -> bool {
    &&& payload.len() > 0
    &&& max_len > 0
    &&& frags.len() >= 1
    &&& frags.len() == ur_fragment_count_of(payload, max_len)
    &&& forall|k: int|
        0 <= k < frags.len() ==> (#[trigger] frags[k])@ == ur_part_of(payload, max_len, k as nat)
}

} // verus!

verus! {

/// Default maximum fragment length, in bytes of payload per part.
pub const DEFAULT_UR_FRAGMENT_LEN: usize = 150;

#[verifier::external_type_specification]
#[verifier::external_body]
pub struct ExUrEncoder<'a>(ur::Encoder<'a>);

#[verifier::external_type_specification]
#[verifier::external_body]
pub struct ExUrDecoder(ur::Decoder);

/// The payload an encoder was created over.
pub uninterp spec fn enc_payload(e: ur::Encoder<'static>) -> Seq<u8>;

/// The maximum fragment length an encoder was created with.
pub uninterp spec fn enc_maxlen(e: ur::Encoder<'static>) -> usize;

/// How many parts an encoder has already emitted.
pub uninterp spec fn enc_index(e: ur::Encoder<'static>) -> nat;

/// How many pure fragments a payload splits into at a given maximum
/// fragment length.
pub uninterp spec fn ur_fragment_count_of(payload: Seq<u8>, max_len: usize) -> nat;

/// The text of the part at a given emission index: the fountain encoding is
/// seeded from the payload's checksum, so every part is a function of the
/// payload, the fragment length, and the index alone.
pub uninterp spec fn ur_part_of(payload: Seq<u8>, max_len: usize, idx: nat) -> Seq<char>;

/// Relies on `ur::Encoder::bytes`: it fails exactly on an empty message or a
/// zero fragment length, and otherwise starts an encoder over the given
/// payload with no parts emitted yet.
#[verifier::external_body]
fn ur_encoder_bytes(message: &[u8], max_fragment_length: usize) -> (r: Option<
    ur::Encoder<'static>,
>)
    ensures
        (r is Some) <==> (message@.len() > 0 && max_fragment_length > 0),
        r matches Some(e) ==> enc_payload(e) == message@ && enc_maxlen(e) == max_fragment_length
            && enc_index(e) == 0,
{
    ur::Encoder::bytes(message, max_fragment_length).ok()
}

/// Relies on `ur::Encoder::fragment_count`: the count of pure fragments,
/// always at least one, a function of payload and fragment length.
#[verifier::external_body]
fn ur_fragment_count(e: &ur::Encoder<'static>) -> (r: usize)
    ensures
        r == ur_fragment_count_of(enc_payload(*e), enc_maxlen(*e)),
        r >= 1,
{
    e.fragment_count()
}

/// Relies on `ur::Encoder::next_part`: it emits the part at the current
/// index and advances the index; serialization into an in-memory buffer
/// cannot fail. A part is ASCII (the scheme prefix, decimal indices, and the
/// bytewords alphabet) and bounded in length: two characters per encoded
/// byte plus an eight-character checksum for a fragment of at most the
/// maximum fragment length with fixed-width metadata fields, behind a prefix
/// of at most fifty-one characters.
#[verifier::external_body]
fn ur_next_part(e: &mut ur::Encoder<'static>) -> (r: String)
    ensures
        enc_payload(*final(e)) == enc_payload(*old(e)),
        enc_maxlen(*final(e)) == enc_maxlen(*old(e)),
        enc_index(*final(e)) == enc_index(*old(e)) + 1,
        r@ == ur_part_of(enc_payload(*old(e)), enc_maxlen(*old(e)), enc_index(*old(e))),
        r@.len() <= 2 * enc_maxlen(*old(e)) + 160,
        r@.len() > 9 && r@.subrange(0, 9) == "ur:bytes/"@,
        vstd::utf8::is_ascii_chars(r@),
{
    match e.next_part() {
        Ok(s) => s,
        Err(_) => String::new(),
    }
}

/// The part strings a decoder has accepted so far.
pub uninterp spec fn dec_parts(d: ur::Decoder) -> Set<Seq<char>>;

/// Whether a decode result hands back exactly the payload `p`.
pub open spec fn returns_payload(r: Option<Vec<u8>>, p: Seq<u8>) -> bool {
    r matches Some(v) && v@ == p
}

/// Relies on `ur::Decoder::default`: a fresh decoder with nothing received.
#[verifier::external_body]
fn ur_decoder_new() -> (r: ur::Decoder)
    ensures
        dec_parts(r) == Set::<Seq<char>>::empty(),
{
    ur::Decoder::default()
}

/// Relies on `ur::Decoder::receive`: whether the part was well formed and
/// consistent with the parts received before it. An accepted part joins the
/// received set and a rejected one changes nothing (every error path in the
/// source returns before mutating). A pure part of some stream is always
/// accepted when everything received so far belongs to that same stream:
/// the header fields agree, so the consistency check passes, and a repeated
/// index is acknowledged without effect.
#[verifier::external_body]
fn ur_decoder_receive(d: &mut ur::Decoder, value: &str) -> (r: bool)
    ensures
        r ==> dec_parts(*final(d)) == dec_parts(*old(d)).insert(value@),
        !r ==> dec_parts(*final(d)) == dec_parts(*old(d)),
        forall|p: Seq<u8>, m: usize|
            #![trigger ur_parts_set(p, m).contains(value@)]
            (p.len() > 0 && m > 0 && ur_parts_set(p, m).contains(value@) && dec_parts(
                *old(d),
            ).subset_of(ur_parts_set(p, m))) ==> r,
{
    d.receive(value).is_ok()
}

/// Relies on `ur::Decoder::message` and `ur::Decoder::complete`: the
/// reassembled payload once enough parts were received, `None` before that.
/// When the accepted parts are exactly the pure parts of one stream, the
/// decoder is complete and reassembly concatenates the fragments back to
/// that stream's payload, with the padding and checksum checks passing.
#[verifier::external_body]
fn ur_decoder_message(d: &ur::Decoder) -> (r: Option<Vec<u8>>)
    ensures
        forall|p: Seq<u8>, m: usize|
            #![trigger ur_parts_set(p, m)]
            (p.len() > 0 && m > 0 && dec_parts(*d) == ur_parts_set(p, m)) ==> returns_payload(r, p),
{
    match d.message() {
        Ok(m) => m,
        Err(_) => None,
    }
}

/// Fragment a payload into its ordered multi-part UR strings.
///
/// The result holds exactly the fountain encoder's pure fragments, in
/// emission order: part `i` of `n`, each a function of the payload and the
/// fragment length alone.
pub fn encode_ur_fragments(payload: &[u8], max_fragment_len: usize) -> (r: Result<
    Vec<String>,
    LaminarError,
>)
    ensures
        (payload@.len() == 0 || max_fragment_len == 0) <==> !(r is Ok),
        !(r is Ok) ==> (r matches Err(LaminarError::Taxonomy(t)) && t.code
            == TaxonomyCode::Handoff5005),
        r matches Ok(frags) ==> {
            &&& is_encoding_of(frags@, payload@, max_fragment_len)
            &&& frags@.len() == ur_fragment_count_of(payload@, max_fragment_len)
            &&& frags@.len() >= 1
            &&& forall|k: int|
                0 <= k < frags@.len() ==> (#[trigger] frags@[k])@ == ur_part_of(
                    payload@,
                    max_fragment_len,
                    k as nat,
                ) && frags@[k]@.len() <= 2 * max_fragment_len + 160 && vstd::utf8::is_ascii_chars(
                    frags@[k]@,
                ) && frags@[k]@.len() > 9 && frags@[k]@.subrange(0, 9) == "ur:bytes/"@
        },
{
    if payload.len() == 0 {
        return Err(LaminarError::taxonomy(
            TaxonomyCode::Handoff5005,
            "UR payload must not be empty",
        ));
    }
    if max_fragment_len == 0 {
        return Err(LaminarError::taxonomy(
            TaxonomyCode::Handoff5005,
            "UR max fragment length must be greater than zero",
        ));
    }
    let mut encoder = match ur_encoder_bytes(payload, max_fragment_len) {
        Some(e) => e,
        None => {
            proof {
                assert(false);
            }
            return Err(LaminarError::taxonomy(TaxonomyCode::Handoff5005, "unreachable"));
        },
    };
    let total = ur_fragment_count(&encoder);
    let mut fragments: Vec<String> = Vec::new();
    let mut i: usize = 0;
    while i < total
        invariant
            0 <= i <= total,
            total == ur_fragment_count_of(payload@, max_fragment_len),
            enc_payload(encoder) == payload@,
            enc_maxlen(encoder) == max_fragment_len,
            enc_index(encoder) == i,
            fragments@.len() == i,
            forall|k: int|
                0 <= k < i ==> (#[trigger] fragments@[k])@ == ur_part_of(
                    payload@,
                    max_fragment_len,
                    k as nat,
                ) && fragments@[k]@.len() <= 2 * max_fragment_len + 160
                    && vstd::utf8::is_ascii_chars(fragments@[k]@) && fragments@[k]@.len() > 9
                    && fragments@[k]@.subrange(0, 9) == "ur:bytes/"@,
        decreases total - i,
    {
        let part = ur_next_part(&mut encoder);
        fragments.push(part);
        i = i + 1;
    }
    Ok(fragments)
}

/// Whether a fragment list holds only parts of the stream for `payload` at
/// maximum fragment length `max_len`, and among them every pure part at
/// least once — the encoder's output in any order, duplicates allowed.
pub open spec fn covers_encoding(frags: Seq<String>, payload: Seq<u8>, max_len: usize) -> bool {
    &&& payload.len() > 0
    &&& max_len > 0
    &&& frags.len() >= 1
    &&& forall|k: int|
        0 <= k < frags.len() ==> ur_parts_set(payload, max_len).contains((#[trigger] frags[k])@)
    &&& forall|i: nat|
        i < ur_fragment_count_of(payload, max_len) ==> taken_views(
            frags,
            frags.len() as int,
        ).contains(#[trigger] ur_part_of(payload, max_len, i))
}

/// An exact encoding covers itself.
pub proof fn lemma_encoding_covers(frags: Seq<String>, payload: Seq<u8>, max_len: usize)
    requires
        is_encoding_of(frags, payload, max_len),
    ensures
        covers_encoding(frags, payload, max_len),
{
    assert forall|k: int|
        0 <= k < frags.len() implies ur_parts_set(payload, max_len).contains(
        (#[trigger] frags[k])@,
    ) by {
        assert(frags[k]@ == ur_part_of(payload, max_len, k as nat));
        assert(exists|i: nat|
            i < ur_fragment_count_of(payload, max_len) && frags[k]@ == ur_part_of(
                payload,
                max_len,
                i,
            ));
    }
    assert forall|i: nat|
        i < ur_fragment_count_of(payload, max_len) implies taken_views(
        frags,
        frags.len() as int,
    ).contains(#[trigger] ur_part_of(payload, max_len, i)) by {
        assert(frags[i as int]@ == ur_part_of(payload, max_len, i));
        assert(taken_views(frags, frags.len() as int).contains(frags[i as int]@));
    }
    assert(covers_encoding(frags, payload, max_len));
}

/// The set of views of the first `i` strings of a list.
pub open spec fn taken_views(frags: Seq<String>, i: int) -> Set<Seq<char>> {
    Set::new(|s: Seq<char>| exists|j: int| 0 <= j < i && (#[trigger] frags[j])@ == s)
}

/// Reassemble a complete set of multi-part UR strings into the payload.
///
/// An empty list or a malformed part is rejected, and a set that remains
/// incomplete after every part was ingested is rejected as well. When the
/// list holds the encoder's parts for some payload — in any order, in
/// particular exactly as emitted — that payload comes back: fragmenting and
/// reassembling is lossless.
pub fn decode_ur_fragments(fragments: &Vec<String>) -> (r: Result<Vec<u8>, LaminarError>)
    ensures
        fragments@.len() == 0 ==> (r matches Err(LaminarError::Taxonomy(t)) && t.code
            == TaxonomyCode::Handoff5007),
        !(r is Ok) ==> (r matches Err(LaminarError::Taxonomy(t)) && (t.code
            == TaxonomyCode::Handoff5007 || t.code == TaxonomyCode::Handoff5008)),
        forall|p: Seq<u8>, m: usize|
            #![trigger covers_encoding(fragments@, p, m)]
            covers_encoding(fragments@, p, m) ==> (r matches Ok(v) && v@ == p),
        forall|p: Seq<u8>, m: usize|
            #![trigger is_encoding_of(fragments@, p, m)]
            is_encoding_of(fragments@, p, m) ==> (r matches Ok(v) && v@ == p),
{
    if fragments.len() == 0 {
        return Err(LaminarError::taxonomy(
            TaxonomyCode::Handoff5007,
            "UR fragment list must not be empty",
        ));
    }
    let mut decoder = ur_decoder_new();
    let mut i: usize = 0;
    proof {
        assert(dec_parts(decoder) =~= taken_views(fragments@, 0));
    }
    while i < fragments.len()
        invariant
            0 <= i <= fragments@.len(),
            dec_parts(decoder) == taken_views(fragments@, i as int),
        decreases fragments@.len() - i,
    {
        let ghost before = dec_parts(decoder);
        let accepted = ur_decoder_receive(&mut decoder, fragments[i].as_str());
        if !accepted {
            proof {
                assert forall|p: Seq<u8>, m: usize|
                    covers_encoding(fragments@, p, m) implies false by {
                    lemma_taken_views_subset(fragments@, i as int, p, m);
                    assert(ur_parts_set(p, m).contains(fragments@[i as int]@));
                }
                assert forall|p: Seq<u8>, m: usize|
                    is_encoding_of(fragments@, p, m) implies false by {
                    lemma_encoding_covers(fragments@, p, m);
                }
            }
            return Err(LaminarError::taxonomy(
                TaxonomyCode::Handoff5007,
                "failed to decode UR fragment",
            ));
        }
        proof {
            assert(dec_parts(decoder) =~= taken_views(fragments@, i + 1)) by {
                assert(dec_parts(decoder) == before.insert(fragments@[i as int]@));
                assert forall|s: Seq<char>|
                    before.insert(fragments@[i as int]@).contains(s) <==> taken_views(
                        fragments@,
                        i + 1,
                    ).contains(s) by {
                    if before.insert(fragments@[i as int]@).contains(s) {
                        if s == fragments@[i as int]@ {
                            assert(taken_views(fragments@, i + 1).contains(s));
                        } else {
                            let j = choose|j: int|
                                0 <= j < i && (#[trigger] fragments@[j])@ == s;
                            assert(taken_views(fragments@, i + 1).contains(s));
                        }
                    }
                    if taken_views(fragments@, i + 1).contains(s) {
                        let j = choose|j: int|
                            0 <= j < i + 1 && (#[trigger] fragments@[j])@ == s;
                        if j < i {
                            assert(before.contains(s));
                        }
                    }
                }
            }
        }
        i = i + 1;
    }
    let result = ur_decoder_message(&decoder);
    let ghost gr = result;
    match result {
        Some(message) => {
            proof {
                assert forall|p: Seq<u8>, m: usize|
                    covers_encoding(fragments@, p, m) implies message@ == p by {
                    lemma_taken_views_full(fragments@, p, m);
                    assert(dec_parts(decoder) == ur_parts_set(p, m));
                    assert(returns_payload(gr, p));
                }
                assert forall|p: Seq<u8>, m: usize|
                    is_encoding_of(fragments@, p, m) implies message@ == p by {
                    lemma_encoding_covers(fragments@, p, m);
                    lemma_taken_views_full(fragments@, p, m);
                    assert(dec_parts(decoder) == ur_parts_set(p, m));
                    assert(returns_payload(gr, p));
                }
            }
            Ok(message)
        },
        None => {
            proof {
                assert forall|p: Seq<u8>, m: usize|
                    covers_encoding(fragments@, p, m) implies false by {
                    lemma_taken_views_full(fragments@, p, m);
                    assert(dec_parts(decoder) == ur_parts_set(p, m));
                    assert(returns_payload(gr, p));
                }
                assert forall|p: Seq<u8>, m: usize|
                    is_encoding_of(fragments@, p, m) implies false by {
                    lemma_encoding_covers(fragments@, p, m);
                    lemma_taken_views_full(fragments@, p, m);
                    assert(dec_parts(decoder) == ur_parts_set(p, m));
                    assert(returns_payload(gr, p));
                }
            }
            Err(LaminarError::taxonomy(
                TaxonomyCode::Handoff5008,
                "UR decoder is incomplete after all provided fragments",
            ))
        },
    }
}

/// A prefix of a covering list only ever contains that stream's parts.
proof fn lemma_taken_views_subset(frags: Seq<String>, i: int, p: Seq<u8>, m: usize)
    requires
        covers_encoding(frags, p, m),
        0 <= i <= frags.len(),
    ensures
        taken_views(frags, i).subset_of(ur_parts_set(p, m)),
{
    assert forall|s: Seq<char>| taken_views(frags, i).contains(s) implies ur_parts_set(
        p,
        m,
    ).contains(s) by {
        let j = choose|j: int| 0 <= j < i && (#[trigger] frags[j])@ == s;
        assert(ur_parts_set(p, m).contains(frags[j]@));
    }
}

/// A covering list's views, taken together, are exactly the stream's parts.
proof fn lemma_taken_views_full(frags: Seq<String>, p: Seq<u8>, m: usize)
    requires
        covers_encoding(frags, p, m),
    ensures
        taken_views(frags, frags.len() as int) == ur_parts_set(p, m),
{
    assert forall|s: Seq<char>|
        taken_views(frags, frags.len() as int).contains(s) <==> ur_parts_set(p, m).contains(
            s,
        ) by {
        if taken_views(frags, frags.len() as int).contains(s) {
            let j = choose|j: int| 0 <= j < frags.len() && (#[trigger] frags[j])@ == s;
            assert(ur_parts_set(p, m).contains(frags[j]@));
        }
        if ur_parts_set(p, m).contains(s) {
            let i = choose|i: nat|
                i < ur_fragment_count_of(p, m) && s == ur_part_of(p, m, i);
            assert(taken_views(frags, frags.len() as int).contains(ur_part_of(p, m, i)));
        }
    }
    assert(taken_views(frags, frags.len() as int) =~= ur_parts_set(p, m));
}

} // verus!
