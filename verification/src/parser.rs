//! Lenient decimal ZEC parsing into zatoshis: the lightweight grammar that
//! allows a bare leading or trailing decimal point and a zero amount.

use vstd::prelude::*;
use vstd::utf8::encode_utf8;
use crate::decimal::{all_digits, digits_val, parse_dec_u64};
use crate::text::{copy_range, trim_bytes, trim_range};
use crate::types::{lemma_digits_val_bound, lemma_no_dot_prefix, lemma_no_dot_step,
    lemma_pow10_8, no_dot, no_dot_prefix_len, rpad8};

verus! {

/// Zatoshi conversion constant: zatoshis per ZEC.
pub const ZAT_PER_ZEC: u64 = 100_000_000;

/// Maximum supported supply in zatoshis.
pub const MAX_SUPPLY_ZAT: u64 = 2_100_000_000_000_000;

/// Why a lenient decimal parse failed.
#[derive(Debug, Clone, PartialEq, Eq)]
pub enum ZecParseError {
    Empty,
    SignNotAllowed,
    InvalidCharacters,
    MultipleDecimalPoints,
    TooManyDecimals,
    InvalidDigits,
    ExceedsMaximum,
    Overflow,
}

/// How many `.` bytes a string holds.
pub open spec fn count_dots(s: Seq<u8>) -> nat
    decreases s.len(),
{
    if s.len() == 0 {
        0
    } else {
        count_dots(s.drop_last()) + (if s.last() == 0x2e {
            1nat
        } else {
            0nat
        })
    }
}

/// Every byte is a digit or a dot.
pub open spec fn digits_and_dots(s: Seq<u8>) -> bool {
    forall|i: int| 0 <= i < s.len() ==> (0x30 <= #[trigger] s[i] <= 0x39 || s[i] == 0x2e)
}

/// The lenient decimal grammar over an already-trimmed byte string: signs
/// are rejected, the whole or fraction part may be empty, at most 8
/// fraction digits, zero allowed, capped at the maximum supply.
pub open spec fn lenient_zec_parse(t: Seq<u8>) -> Result<u64, ZecParseError> {
    if t.len() == 0 {
        Err(ZecParseError::Empty)
    } else if t[0] == 0x2d || t[0] == 0x2b {
        Err(ZecParseError::SignNotAllowed)
    } else if !digits_and_dots(t) {
        Err(ZecParseError::InvalidCharacters)
    } else if count_dots(t) > 1 {
        Err(ZecParseError::MultipleDecimalPoints)
    } else {
        let k = no_dot_prefix_len(t);
        let whole = t.take(k);
        if digits_val(whole) > u64::MAX {
            Err(ZecParseError::Overflow)
        } else if digits_val(whole) * ZAT_PER_ZEC > u64::MAX {
            Err(ZecParseError::Overflow)
        } else {
            let frac = if k < t.len() {
                t.subrange(k + 1, t.len() as int)
            } else {
                Seq::empty()
            };
            if frac.len() > 8 {
                Err(ZecParseError::TooManyDecimals)
            } else if digits_val(whole) * ZAT_PER_ZEC + digits_val(rpad8(frac)) > u64::MAX {
                Err(ZecParseError::Overflow)
            } else if digits_val(whole) * ZAT_PER_ZEC + digits_val(rpad8(frac)) > MAX_SUPPLY_ZAT {
                Err(ZecParseError::ExceedsMaximum)
            } else {
                Ok((digits_val(whole) * ZAT_PER_ZEC + digits_val(rpad8(frac))) as u64)
            }
        }
    }
}

/// A dot at some position means at least one dot overall.
proof fn lemma_count_dots_ge1(t: Seq<u8>, i: int)
    requires
        0 <= i < t.len(),
        t[i] == 0x2e,
    ensures
        count_dots(t) >= 1,
    decreases t.len(),
{
    if i < t.len() - 1 {
        lemma_count_dots_ge1(t.drop_last(), i);
    }
}

/// Two dots at distinct positions mean at least two dots overall.
proof fn lemma_count_dots_ge2(t: Seq<u8>, i: int, j: int)
    requires
        0 <= i < j < t.len(),
        t[i] == 0x2e,
        t[j] == 0x2e,
    ensures
        count_dots(t) >= 2,
    decreases t.len(),
{
    if j == t.len() - 1 {
        lemma_count_dots_ge1(t.drop_last(), i);
    } else {
        lemma_count_dots_ge2(t.drop_last(), i, j);
    }
}

/// Parse a decimal ZEC string into zatoshis with no floating-point math.
pub fn parse_zec_to_zat(input: &str) -> (r: Result<u64, ZecParseError>)
    ensures
        r == lenient_zec_parse(trim_bytes(encode_utf8(input@))),
{
    let b = input.as_bytes();
    let (st, en) = trim_range(b);
    let ghost t = trim_bytes(encode_utf8(input@));
    proof {
        assert(b@.subrange(st as int, en as int) == t);
    }
    if st == en {
        return Err(ZecParseError::Empty);
    }
    if b[st] == 0x2d || b[st] == 0x2b {
        return Err(ZecParseError::SignNotAllowed);
    }
    proof {
        assert(t[0] == b@[st as int]);
    }
    // character check and dot count in one pass
    let mut dots: usize = 0;
    let mut i: usize = st;
    while i < en
        invariant
            st <= i <= en <= b@.len(),
            t == b@.subrange(st as int, en as int),
            t == trim_bytes(encode_utf8(input@)),
            en - st == t.len(),
            t.len() > 0,
            t[0] != 0x2d && t[0] != 0x2b,
            digits_and_dots(t.take(i - st)),
            dots == count_dots(t.take(i - st)),
            dots <= i - st,
        decreases en - i,
    {
        let c = b[i];
        proof {
            assert(t.take(i - st + 1).drop_last() =~= t.take(i - st));
            assert(t.take(i - st + 1).last() == b@[i as int]);
        }
        if c == 0x2e {
            dots = dots + 1;
        } else if c < 0x30 || c > 0x39 {
            proof {
                assert(t[i - st] == b@[i as int]);
                assert(!digits_and_dots(t));
            }
            return Err(ZecParseError::InvalidCharacters);
        }
        i = i + 1;
    }
    proof {
        assert(t.take(t.len() as int) =~= t);
    }
    if dots > 1 {
        return Err(ZecParseError::MultipleDecimalPoints);
    }
    // locate the dot
    proof {
        lemma_no_dot_prefix(t);
    }
    let mut dot = st;
    while dot < en && b[dot] != 0x2e
        invariant
            st <= dot <= en <= b@.len(),
            t == b@.subrange(st as int, en as int),
            no_dot(t.take(dot - st)),
            no_dot_prefix_len(t) >= dot - st,
        decreases en - dot,
    {
        proof {
            let pre1 = t.take(dot - st + 1);
            assert(forall|j: int|
                0 <= j < pre1.len() ==> #[trigger] pre1[j] == if j < dot - st {
                    t.take(dot - st)[j]
                } else {
                    b@[dot as int]
                });
            lemma_no_dot_step(t, dot - st);
        }
        dot = dot + 1;
    }
    proof {
        lemma_no_dot_prefix(t);
        if dot < en {
            assert(t[dot - st] == 0x2e);
            assert(no_dot_prefix_len(t) <= dot - st) by {
                if no_dot_prefix_len(t) > dot - st {
                    assert(t.take(no_dot_prefix_len(t))[dot - st] == t[dot - st]);
                }
            }
        }
        assert(no_dot_prefix_len(t) == dot - st);
    }
    let ghost k = no_dot_prefix_len(t);
    let whole = copy_range(b, st, dot);
    proof {
        assert(whole@ =~= t.take(k));
        assert(all_digits(whole@)) by {
            assert(forall|j: int| 0 <= j < whole@.len() ==> #[trigger] whole@[j] == t[j]);
        }
    }
    let whole_val: u64 = if whole.len() == 0 {
        0
    } else {
        match parse_dec_u64(whole.as_slice()) {
            Some(v) => v,
            None => {
                return Err(ZecParseError::Overflow);
            },
        }
    };
    let whole_zat = match whole_val.checked_mul(ZAT_PER_ZEC) {
        Some(v) => v,
        None => {
            return Err(ZecParseError::Overflow);
        },
    };
    let frac_val: u64 = if dot < en {
        let f = copy_range(b, dot + 1, en);
        proof {
            assert(f@ =~= t.subrange(k + 1, t.len() as int));
            assert(t[k] == 0x2e);
            assert forall|j: int| 0 <= j < f@.len() implies 0x30 <= #[trigger] f@[j] <= 0x39 by {
                assert(f@[j] == t[k + 1 + j]);
                if t[k + 1 + j] == 0x2e {
                    lemma_count_dots_ge2(t, k, k + 1 + j);
                }
            }
            assert(all_digits(f@));
        }
        if f.len() > 8 {
            return Err(ZecParseError::TooManyDecimals);
        }
        let mut padded = f;
        while padded.len() < 8
            invariant
                padded@.len() <= 8,
                rpad8(t.subrange(k + 1, t.len() as int)) =~= rpad8(padded@),
                all_digits(padded@),
            decreases 8 - padded@.len(),
        {
            proof {
                assert(rpad8(padded@) =~= rpad8(padded@.push(0x30u8)));
            }
            padded.push(0x30);
        }
        proof {
            assert(rpad8(padded@) =~= padded@);
            lemma_digits_val_bound(padded@);
            lemma_pow10_8();
        }
        match parse_dec_u64(padded.as_slice()) {
            Some(v) => v,
            None => {
                proof {
                    assert(false);
                }
                0
            },
        }
    } else {
        proof {
            assert(rpad8(Seq::<u8>::empty()) =~= Seq::new(8, |j: int| 0x30u8));
            crate::decimal::lemma_digits_val_all_zeros(rpad8(Seq::<u8>::empty()));
        }
        0
    };
    let total = match whole_zat.checked_add(frac_val) {
        Some(v) => v,
        None => {
            return Err(ZecParseError::Overflow);
        },
    };
    if total > MAX_SUPPLY_ZAT {
        return Err(ZecParseError::ExceedsMaximum);
    }
    Ok(total)
}

} // verus!
