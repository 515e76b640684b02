//! Core monetary and batch types: fixed-point ZEC amounts in zatoshis,
//! strict decimal parsing and formatting, and the shared data model.

use vstd::prelude::*;
use vstd::utf8::encode_utf8;
use crate::decimal::{all_digits, dec_digits, digits_val, lemma_dec_digits,
    lemma_digits_val_leading_zeros, parse_dec_u64, push_dec_u64};
use crate::error::AmountError;
use crate::text::{ascii_str, is_ascii_bytes, lemma_ascii_bytes_valid_utf8, string_from_utf8,
    trim_bytes, trim_range};

verus! {

/// Zatoshis per ZEC: the fixed-point scale of all amounts.
pub const ZATOSHI_PER_ZEC: u64 = 100_000_000;

/// Smallest accepted amount.
pub const ZATOSHI_MIN: u64 = 1;

/// Largest accepted amount: the total supply cap.
pub const ZATOSHI_MAX: u64 = 2_100_000_000_000_000;

/// Amounts below this many zatoshis count as dust.
pub const DUST_THRESHOLD: u64 = 10_000;

/// A monetary amount in zatoshis, guaranteed inside `[ZATOSHI_MIN, ZATOSHI_MAX]`
/// by construction.
#[derive(Debug, Clone, Copy, PartialEq, Eq, PartialOrd, Ord, Hash, Structural)]
pub struct Zatoshi(u64);

impl Zatoshi {
    /// The amount in zatoshis.
    pub closed spec fn zat(&self) -> u64 {
        self.0
    }

    /// The range invariant every constructed amount satisfies.
    pub open spec fn wf(&self) -> bool {
        ZATOSHI_MIN <= self.zat() <= ZATOSHI_MAX
    }

    /// Accept a zatoshi count inside `[ZATOSHI_MIN, ZATOSHI_MAX]`.
    pub fn new(value: u64) -> (r: Result<Zatoshi, AmountError>)
        ensures
            r is Ok <==> ZATOSHI_MIN <= value <= ZATOSHI_MAX,
            r is Ok ==> r->Ok_0.zat() == value && r->Ok_0.wf(),
            value < ZATOSHI_MIN ==> r == Err::<Zatoshi, AmountError>(AmountError::BelowMinimum),
            value > ZATOSHI_MAX ==> r == Err::<Zatoshi, AmountError>(
                AmountError::AboveMaximum { value },
            ),
    {
        if value < ZATOSHI_MIN {
            Err(AmountError::BelowMinimum)
        } else if value > ZATOSHI_MAX {
            Err(AmountError::AboveMaximum { value })
        } else {
            Ok(Zatoshi(value))
        }
    }

    /// The raw zatoshi count.
    pub fn as_u64(&self) -> (r: u64)
        ensures
            r == self.zat(),
    {
        self.0
    }

    /// Add two amounts; the sum must stay inside the accepted range.
    pub fn checked_add(self, other: Zatoshi) -> (r: Result<Zatoshi, AmountError>)
        ensures
            r is Ok <==> ZATOSHI_MIN <= self.zat() + other.zat() <= ZATOSHI_MAX,
            r is Ok ==> r->Ok_0.zat() == self.zat() + other.zat() && r->Ok_0.wf(),
            self.zat() + other.zat() > u64::MAX ==> r == Err::<Zatoshi, AmountError>(
                AmountError::Overflow,
            ),
            ZATOSHI_MAX < self.zat() + other.zat() <= u64::MAX ==> r == Err::<Zatoshi, AmountError>(
                AmountError::AboveMaximum { value: (self.zat() + other.zat()) as u64 },
            ),
            self.zat() + other.zat() < ZATOSHI_MIN ==> r == Err::<Zatoshi, AmountError>(
                AmountError::BelowMinimum,
            ),
    {
        match self.0.checked_add(other.0) {
            Some(sum) => Zatoshi::new(sum),
            None => Err(AmountError::Overflow),
        }
    }
}

/// A zatoshi amount written as a plain decimal integer string: digits only,
/// no leading zero unless the value is exactly `0`.
pub open spec fn is_valid_zat_string(s: Seq<char>) -> bool {
    &&& s.len() > 0
    &&& all_digits(encode_utf8(s))
    &&& (encode_utf8(s) =~= seq![0x30u8] || encode_utf8(s)[0] != 0x30)
}

/// A validated integer zatoshi string.
#[derive(Debug, Clone, PartialEq, Eq, Hash)]
pub struct ZatoshiString(String);

impl ZatoshiString {
    /// The characters of the validated string.
    pub closed spec fn text(&self) -> Seq<char> {
        self.0@
    }

    /// Accept a digit string with no leading zeros.
    pub fn new(value: &str) -> (r: Result<ZatoshiString, AmountError>)
        ensures
            r is Ok <==> is_valid_zat_string(value@),
            r is Ok ==> r->Ok_0.text() == value@,
            !(r is Ok) ==> (r matches Err(AmountError::InvalidZatoshiString { value: v }) && v@
                == value@),
    {
        let b = value.as_bytes();
        let mut ok = b.len() > 0;
        let mut i: usize = 0;
        while i < b.len()
            invariant
                0 <= i <= b@.len(),
                b@ == encode_utf8(value@),
                ok == (b@.len() > 0 && all_digits(b@.take(i as int))),
            decreases b@.len() - i,
        {
            if b[i] < 0x30 || b[i] > 0x39 {
                ok = false;
            }
            proof {
                assert(b@.take(i + 1).drop_last() =~= b@.take(i as int));
                assert(b@.take(i + 1).last() == b@[i as int]);
                if all_digits(b@.take(i as int)) && 0x30 <= b@[i as int] <= 0x39 {
                    assert(all_digits(b@.take(i + 1))) by {
                        assert(forall|j: int| 0 <= j < i + 1 ==> 0x30 <= #[trigger] b@.take(i + 1)[j] <= 0x39);
                    }
                }
            }
            i = i + 1;
        }
        proof {
            assert(b@.take(b@.len() as int) =~= b@);
        }
        if !ok {
            return Err(AmountError::InvalidZatoshiString { value: value.to_owned() });
        }
        if b.len() > 1 && b[0] == 0x30 {
            proof {
                assert(!(encode_utf8(value@) =~= seq![0x30u8]));
            }
            return Err(AmountError::InvalidZatoshiString { value: value.to_owned() });
        }
        proof {
            if b@.len() == 1 && b@[0] == 0x30 {
                assert(encode_utf8(value@) =~= seq![0x30u8]);
            }
        }
        Ok(ZatoshiString(value.to_owned()))
    }

    /// The validated string.
    pub fn as_str(&self) -> (r: &str)
        ensures
            r@ == self.text(),
    {
        self.0.as_str()
    }

    /// The decimal rendering of an amount's zatoshi count.
    pub fn from(value: Zatoshi) -> (r: ZatoshiString)
        ensures
            encode_utf8(r.text()) == dec_digits(value.zat() as nat),
    {
        let mut out: Vec<u8> = Vec::new();
        push_dec_u64(value.as_u64(), &mut out);
        proof {
            lemma_dec_digits(value.zat() as nat);
            assert(is_ascii_bytes(out@));
            lemma_ascii_bytes_valid_utf8(out@);
        }
        ZatoshiString(string_from_utf8(out))
    }
}

impl Zatoshi {
    /// Parse a `ZatoshiString` back into an amount.
    pub fn try_from(value: &ZatoshiString) -> (r: Result<Zatoshi, AmountError>)
        ensures
            r is Ok <==> ZATOSHI_MIN <= digits_val(encode_utf8(value.text())) <= ZATOSHI_MAX
                && all_digits(encode_utf8(value.text())) && encode_utf8(value.text()).len() > 0,
            r is Ok ==> r->Ok_0.zat() == digits_val(encode_utf8(value.text())),
    {
        let b = value.0.as_str().as_bytes();
        match parse_dec_u64(b) {
            Some(v) => Zatoshi::new(v),
            None => Err(AmountError::Overflow),
        }
    }
}

/// 10 to the `n`-th power.
pub open spec fn pow10(n: nat) -> nat
    decreases n,
{
    if n == 0 {
        1
    } else {
        10 * pow10((n - 1) as nat)
    }
}

/// A digit string of length `n` has a value below `10^n`.
pub proof fn lemma_digits_val_bound(s: Seq<u8>)
    requires
        all_digits(s),
    ensures
        digits_val(s) < pow10(s.len()),
    decreases s.len(),
{
    if s.len() > 0 {
        lemma_digits_val_bound(s.drop_last());
        assert(s.last() == s[s.len() - 1]);
    }
}

/// A value below `10^n` has at most `n` decimal digits, for positive `n`.
pub proof fn lemma_dec_digits_len(n: nat, k: nat)
    requires
        k >= 1,
        n < pow10(k),
    ensures
        dec_digits(n).len() <= k,
    decreases k,
{
    if n < 10 {
    } else {
        assert(pow10(k) == 10 * pow10((k - 1) as nat));
        lemma_dec_digits_len(n / 10, (k - 1) as nat);
    }
}

/// The number of leading bytes of `s` before the first `.`; the length of `s`
/// when it has none.
pub open spec fn no_dot_prefix_len(s: Seq<u8>) -> int
    decreases s.len(),
{
    if s.len() == 0 {
        0
    } else if s[0] == 0x2e {
        0
    } else {
        1 + no_dot_prefix_len(s.drop_first())
    }
}

/// `s` holds no `.` byte.
pub open spec fn no_dot(s: Seq<u8>) -> bool {
    forall|i: int| 0 <= i < s.len() ==> #[trigger] s[i] != 0x2e
}

/// `no_dot_prefix_len` really is the first `.` position, or the length.
pub proof fn lemma_no_dot_prefix(s: Seq<u8>)
    ensures
        0 <= no_dot_prefix_len(s) <= s.len(),
        no_dot(s.take(no_dot_prefix_len(s))),
        no_dot_prefix_len(s) < s.len() ==> s[no_dot_prefix_len(s)] == 0x2e,
        no_dot(s) ==> no_dot_prefix_len(s) == s.len(),
    decreases s.len(),
{
    if s.len() > 0 && s[0] != 0x2e {
        lemma_no_dot_prefix(s.drop_first());
        let k = no_dot_prefix_len(s);
        assert(s.take(k).drop_first() =~= s.drop_first().take(k - 1));
        assert(forall|i: int|
            0 <= i < k ==> #[trigger] s.take(k)[i] == if i == 0 {
                s[0]
            } else {
                s.drop_first().take(k - 1)[i - 1]
            });
    }
}

/// `f` right-padded with zero digits to length 8.
pub open spec fn rpad8(f: Seq<u8>) -> Seq<u8> {
    f + Seq::new((8 - f.len()) as nat, |i: int| 0x30u8)
}

/// `d` left-padded with zero digits to length 8.
pub open spec fn lpad8(d: Seq<u8>) -> Seq<u8> {
    Seq::new((8 - d.len()) as nat, |i: int| 0x30u8) + d
}

/// `s` without its trailing zero digits.
pub open spec fn trim_zeros_back(s: Seq<u8>) -> Seq<u8>
    decreases s.len(),
{
    if s.len() > 0 && s.last() == 0x30 {
        trim_zeros_back(s.drop_last())
    } else {
        s
    }
}

/// Right-padding undoes trailing-zero trimming for strings of length `n`.
pub proof fn lemma_rpad_trim(s: Seq<u8>)
    ensures
        trim_zeros_back(s).len() <= s.len(),
        trim_zeros_back(s) + Seq::new(
            (s.len() - trim_zeros_back(s).len()) as nat,
            |i: int| 0x30u8,
        ) =~= s,
        all_digits(s) ==> all_digits(trim_zeros_back(s)),
        no_dot(s) ==> no_dot(trim_zeros_back(s)),
        trim_zeros_back(s).len() > 0 ==> trim_zeros_back(s)[0] == s[0],
        trim_zeros_back(s).len() > 0 ==> trim_zeros_back(s).last() != 0x30,
    decreases s.len(),
{
    if s.len() > 0 && s.last() == 0x30 {
        lemma_rpad_trim(s.drop_last());
        let t = trim_zeros_back(s);
        assert(t + Seq::new((s.len() - t.len()) as nat, |i: int| 0x30u8) =~= (t + Seq::new(
            (s.len() - 1 - t.len()) as nat,
            |i: int| 0x30u8,
        )).push(0x30u8));
    } else {
        assert(trim_zeros_back(s) + Seq::new(0, |i: int| 0x30u8) =~= s);
    }
}

/// How the strict decimal ZEC grammar reads an already-trimmed byte string.
///
/// The whole part is mandatory and all digits; an optional fraction of at
/// most 8 digits follows one `.`; the value must land in the accepted range.
pub open spec fn zec_parse(s: Seq<u8>) -> Result<u64, AmountError> {
    if s.len() == 0 {
        Err(AmountError::EmptyInput)
    } else if s[0] == 0x2d {
        Err(AmountError::NegativeNotAllowed)
    } else {
        let k = no_dot_prefix_len(s);
        let whole = s.take(k);
        if k < s.len() && !no_dot(s.subrange(k + 1, s.len() as int)) {
            // a second `.` means more than two parts
            Err(AmountError::InvalidFormat)
        } else if whole.len() == 0 {
            Err(AmountError::InvalidFormat)
        } else if !all_digits(whole) {
            Err(AmountError::InvalidNumeric)
        } else if digits_val(whole) > u64::MAX {
            Err(AmountError::Overflow)
        } else if digits_val(whole) * ZATOSHI_PER_ZEC > u64::MAX {
            Err(AmountError::Overflow)
        } else {
            zec_parse_frac(
                (digits_val(whole) * ZATOSHI_PER_ZEC) as nat,
                if k < s.len() {
                    Some(s.subrange(k + 1, s.len() as int))
                } else {
                    None
                },
            )
        }
    }
}

/// The fraction part and final range check of the ZEC grammar.
pub open spec fn zec_parse_frac(whole_zat: nat, frac: Option<Seq<u8>>) -> Result<u64, AmountError> {
    match frac {
        None => zec_range_check(whole_zat),
        Some(f) => if f.len() > 8 {
            Err(AmountError::TooManyDecimals { decimals: f.len() as usize })
        } else if f.len() > 0 && !all_digits(f) {
            Err(AmountError::InvalidNumeric)
        } else {
            zec_range_check((whole_zat + digits_val(rpad8(f))) as nat)
        },
    }
}

/// The final overflow and range check of the ZEC grammar.
pub open spec fn zec_range_check(total: nat) -> Result<u64, AmountError> {
    if total > u64::MAX {
        Err(AmountError::Overflow)
    } else if total < ZATOSHI_MIN {
        Err(AmountError::BelowMinimum)
    } else if total > ZATOSHI_MAX {
        Err(AmountError::AboveMaximum { value: total as u64 })
    } else {
        Ok(total as u64)
    }
}

/// The canonical decimal rendering of a zatoshi amount: lowest terms, no
/// trailing zero fraction, no decimal point for whole-ZEC values.
pub open spec fn zec_format(v: u64) -> Seq<u8> {
    let w = v / ZATOSHI_PER_ZEC;
    let f = v % ZATOSHI_PER_ZEC;
    if f == 0 {
        dec_digits(w as nat)
    } else {
        dec_digits(w as nat) + seq![0x2eu8] + trim_zeros_back(lpad8(dec_digits(f as nat)))
    }
}

impl Zatoshi {
    /// Parse a decimal ZEC string, in major units, into zatoshis.
    pub fn from_zec_str(input: &str) -> (r: Result<Zatoshi, AmountError>)
        ensures
            match r {
                Ok(z) => zec_parse(trim_bytes(encode_utf8(input@))) == Ok::<u64, AmountError>(
                    z.zat(),
                ) && z.wf(),
                Err(e) => zec_parse(trim_bytes(encode_utf8(input@))) == Err::<u64, AmountError>(e),
            },
    {
        let b = input.as_bytes();
        let (st, en) = trim_range(b);
        let ghost t = trim_bytes(encode_utf8(input@));
        proof {
            assert(b@.subrange(st as int, en as int) == t);
        }
        if st == en {
            return Err(AmountError::EmptyInput);
        }
        if b[st] == 0x2d {
            return Err(AmountError::NegativeNotAllowed);
        }
        // find the first `.` inside the trimmed range
        proof {
            lemma_no_dot_prefix(t);
        }
        let mut i: usize = st;
        while i < en && b[i] != 0x2e
            invariant
                st <= i <= en <= b@.len(),
                t == b@.subrange(st as int, en as int),
                no_dot(b@.subrange(st as int, i as int)),
                no_dot_prefix_len(t) >= i - st,
            decreases en - i,
        {
            proof {
                let pre = b@.subrange(st as int, i as int);
                let pre1 = b@.subrange(st as int, i + 1);
                assert(forall|j: int|
                    0 <= j < pre1.len() ==> #[trigger] pre1[j] == if j < i - st {
                        pre[j]
                    } else {
                        b@[i as int]
                    });
                lemma_no_dot_step(t, i - st);
            }
            i = i + 1;
        }
        proof {
            lemma_no_dot_prefix(t);
            if i < en {
                assert(t[i - st] == 0x2e);
                assert(no_dot_prefix_len(t) <= i - st) by {
                    if no_dot_prefix_len(t) > i - st {
                        assert(t.take(no_dot_prefix_len(t))[i - st] == t[i - st]);
                    }
                }
            } else {
                assert(no_dot_prefix_len(t) <= t.len());
            }
            assert(no_dot_prefix_len(t) == i - st);
        }
        let dot = i;
        let ghost k = no_dot_prefix_len(t);
        proof {
            assert(t.take(k) =~= b@.subrange(st as int, dot as int));
        }
        // reject a second dot
        if dot < en {
            let mut j: usize = dot + 1;
            while j < en && b[j] != 0x2e
                invariant
                    dot + 1 <= j <= en <= b@.len(),
                    t == b@.subrange(st as int, en as int),
                    st <= dot < en,
                    forall|p: int| dot + 1 <= p < j ==> #[trigger] b@[p] != 0x2e,
                decreases en - j,
            {
                j = j + 1;
            }
            if j < en {
                proof {
                    let f = t.subrange(k + 1, t.len() as int);
                    assert(f[j - st - (k + 1)] == b@[j as int]);
                    assert(!no_dot(f));
                }
                return Err(AmountError::InvalidFormat);
            }
            proof {
                let f = t.subrange(k + 1, t.len() as int);
                assert(forall|p: int| 0 <= p < f.len() ==> #[trigger] f[p] == b@[p + st + k + 1]);
                assert(no_dot(f));
            }
        }
        if dot == st {
            return Err(AmountError::InvalidFormat);
        }
        // whole part
        let whole = crate::text::copy_range(b, st, dot);
        let whole_val = match parse_dec_u64(whole.as_slice()) {
            Some(v) => v,
            None => {
                if !all_digits_vec(&whole) {
                    return Err(AmountError::InvalidNumeric);
                }
                return Err(AmountError::Overflow);
            },
        };
        let whole_zat = match whole_val.checked_mul(ZATOSHI_PER_ZEC) {
            Some(v) => v,
            None => {
                return Err(AmountError::Overflow);
            },
        };
        // fraction part
        let frac_val: u64 = if dot < en {
            let f = crate::text::copy_range(b, dot + 1, en);
            proof {
                assert(f@ =~= t.subrange(k + 1, t.len() as int));
            }
            if f.len() > 8 {
                return Err(AmountError::TooManyDecimals { decimals: f.len() });
            }
            if f.len() > 0 && !all_digits_vec(&f) {
                return Err(AmountError::InvalidNumeric);
            }
            let mut padded = f;
            while padded.len() < 8
                invariant
                    padded@.len() <= 8,
                    rpad8(t.subrange(k + 1, t.len() as int)) =~= rpad8(padded@),
                    all_digits(padded@),
                decreases 8 - padded@.len(),
            {
                proof {
                    assert(rpad8(padded@) =~= rpad8(padded@.push(0x30u8)));
                }
                padded.push(0x30);
            }
            proof {
                assert(rpad8(padded@) =~= padded@);
                lemma_digits_val_bound(padded@);
                lemma_pow10_8();
            }
            match parse_dec_u64(padded.as_slice()) {
                Some(v) => v,
                None => {
                    proof {
                        assert(false);
                    }
                    0
                },
            }
        } else {
            0
        };
        let total = match whole_zat.checked_add(frac_val) {
            Some(v) => v,
            None => {
                return Err(AmountError::Overflow);
            },
        };
        if total < ZATOSHI_MIN {
            Err(AmountError::BelowMinimum)
        } else if total > ZATOSHI_MAX {
            Err(AmountError::AboveMaximum { value: total })
        } else {
            Ok(Zatoshi(total))
        }
    }

    /// Render the amount as a decimal ZEC string in lowest terms.
    pub fn to_zec_string(&self) -> (r: String)
        ensures
            r@ == ascii_str(zec_format(self.zat())),
            is_ascii_bytes(encode_utf8(r@)),
            encode_utf8(r@) == zec_format(self.zat()),
    {
        let w = self.0 / ZATOSHI_PER_ZEC;
        let f = self.0 % ZATOSHI_PER_ZEC;
        let mut out: Vec<u8> = Vec::new();
        push_dec_u64(w, &mut out);
        proof {
            lemma_dec_digits(w as nat);
        }
        if f != 0 {
            out.push(0x2e);
            let mut fd: Vec<u8> = Vec::new();
            push_dec_u64(f, &mut fd);
            proof {
                lemma_dec_digits(f as nat);
                lemma_pow10_8();
                lemma_dec_digits_len(f as nat, 8);
            }
            let mut frac_buf: Vec<u8> = Vec::new();
            let mut pad: usize = 8 - fd.len();
            while pad > 0
                invariant
                    frac_buf@.len() + pad + fd@.len() == 8,
                    forall|i: int| 0 <= i < frac_buf@.len() ==> #[trigger] frac_buf@[i] == 0x30u8,
                decreases pad,
            {
                frac_buf.push(0x30);
                pad = pad - 1;
            }
            let mut fi: usize = 0;
            while fi < fd.len()
                invariant
                    0 <= fi <= fd@.len(),
                    fd@ == dec_digits(f as nat),
                    frac_buf@ =~= Seq::new((8 - fd@.len()) as nat, |i: int| 0x30u8) + fd@.take(
                        fi as int,
                    ),
                decreases fd@.len() - fi,
            {
                frac_buf.push(fd[fi]);
                proof {
                    assert(fd@.take(fi + 1) =~= fd@.take(fi as int).push(fd@[fi as int]));
                }
                fi = fi + 1;
            }
            proof {
                assert(fd@.take(fd@.len() as int) =~= fd@);
                assert(frac_buf@ =~= lpad8(dec_digits(f as nat)));
            }
            let ghost orig = frac_buf@;
            while frac_buf.len() > 0 && frac_buf[frac_buf.len() - 1] == 0x30
                invariant
                    trim_zeros_back(frac_buf@) == trim_zeros_back(orig),
                decreases frac_buf@.len(),
            {
                proof {
                    assert(frac_buf@.drop_last() =~= frac_buf@.take(frac_buf@.len() - 1));
                }
                frac_buf.pop();
            }
            proof {
                assert(trim_zeros_back(frac_buf@) == frac_buf@);
            }
            let mut bi: usize = 0;
            let ghost before = out@;
            while bi < frac_buf.len()
                invariant
                    0 <= bi <= frac_buf@.len(),
                    out@ =~= before + frac_buf@.take(bi as int),
                decreases frac_buf@.len() - bi,
            {
                out.push(frac_buf[bi]);
                proof {
                    assert(frac_buf@.take(bi + 1) =~= frac_buf@.take(bi as int).push(
                        frac_buf@[bi as int],
                    ));
                }
                bi = bi + 1;
            }
            proof {
                assert(frac_buf@.take(frac_buf@.len() as int) =~= frac_buf@);
                assert(out@ =~= zec_format(self.zat()));
            }
        } else {
            proof {
                assert(out@ =~= zec_format(self.zat()));
            }
        }
        proof {
            lemma_zec_format_bytes(self.zat());
            lemma_ascii_bytes_valid_utf8(out@);
        }
        string_from_utf8(out)
    }
}

/// Every byte of `zec_format(v)` is a digit or one dot, never whitespace,
/// and the string is non-empty and does not start or end with `.` or `0`-pads.
pub proof fn lemma_zec_format_bytes(v: u64)
    ensures
        is_ascii_bytes(zec_format(v)),
        zec_format(v).len() > 0,
        forall|i: int|
            0 <= i < zec_format(v).len() ==> (0x30 <= #[trigger] zec_format(v)[i] <= 0x39
                || zec_format(v)[i] == 0x2e),
        zec_format(v)[0] != 0x2e,
        zec_format(v).last() != 0x2e,
{
    let w = (v / ZATOSHI_PER_ZEC) as nat;
    let f = (v % ZATOSHI_PER_ZEC) as nat;
    lemma_dec_digits(w);
    if f != 0 {
        lemma_dec_digits(f);
        lemma_pow10_8();
        lemma_dec_digits_len(f, 8);
        let padded = lpad8(dec_digits(f));
        assert(all_digits(padded)) by {
            assert(forall|i: int|
                0 <= i < padded.len() ==> 0x30 <= #[trigger] padded[i] <= 0x39);
        }
        lemma_rpad_trim(padded);
        let s = zec_format(v);
        let tz = trim_zeros_back(padded);
        assert(tz.len() > 0) by {
            if tz.len() == 0 {
                lemma_digits_val_all_zeros_rpad(padded);
                lemma_digits_val_leading_zeros(
                    Seq::new((8 - dec_digits(f).len()) as nat, |i: int| 0x30u8),
                    dec_digits(f),
                );
            }
        }
        assert(s[0] == dec_digits(w)[0]);
        assert(s.last() == tz.last());
    }
}

/// A string rebuilt from trimming plus zero padding that is empty forces the
/// padded string to be all zeros, whose value is zero.
proof fn lemma_digits_val_all_zeros_rpad(padded: Seq<u8>)
    requires
        trim_zeros_back(padded).len() == 0,
    ensures
        digits_val(padded) == 0,
    decreases padded.len(),
{
    if padded.len() > 0 {
        if padded.last() == 0x30 {
            lemma_digits_val_all_zeros_rpad(padded.drop_last());
        }
    }
}

/// `pow10(8)` spelled out.
pub proof fn lemma_pow10_8()
    ensures
        pow10(8) == 100_000_000,
{
    reveal_with_fuel(pow10, 9);
}

/// Extending a dot-free prefix by a non-dot byte keeps the prefix length
/// climbing.
pub proof fn lemma_no_dot_step(t: Seq<u8>, i: int)
    requires
        0 <= i < t.len(),
        no_dot_prefix_len(t) >= i,
        t[i] != 0x2e,
    ensures
        no_dot_prefix_len(t) >= i + 1,
    decreases i,
{
    lemma_no_dot_prefix(t);
    if no_dot_prefix_len(t) == i {
        assert(t[no_dot_prefix_len(t)] == 0x2e || no_dot_prefix_len(t) == t.len());
    }
}

/// Whether every byte of a vector is a decimal digit.
pub fn all_digits_vec(v: &Vec<u8>) -> (r: bool)
    ensures
        r == all_digits(v@),
{
    let mut i: usize = 0;
    while i < v.len()
        invariant
            0 <= i <= v@.len(),
            forall|j: int| 0 <= j < i ==> 0x30 <= #[trigger] v@[j] <= 0x39,
        decreases v@.len() - i,
    {
        if v[i] < 0x30 || v[i] > 0x39 {
            return false;
        }
        i = i + 1;
    }
    true
}

/// Formatting then parsing reproduces every in-range amount exactly.
pub proof fn lemma_zec_round_trip(v: u64)
    requires
        ZATOSHI_MIN <= v <= ZATOSHI_MAX,
    ensures
        zec_parse(zec_format(v)) == Ok::<u64, AmountError>(v),
        trim_bytes(zec_format(v)) == zec_format(v),
{
    let s = zec_format(v);
    let w = (v / ZATOSHI_PER_ZEC) as nat;
    let f = (v % ZATOSHI_PER_ZEC) as nat;
    lemma_zec_format_bytes(v);
    crate::text::lemma_trim_id(s);
    lemma_dec_digits(w);
    lemma_no_dot_prefix(s);
    assert(v == w * (ZATOSHI_PER_ZEC as nat) + f);
    if f == 0 {
        assert(no_dot(s));
        assert(s.take(no_dot_prefix_len(s)) =~= s);
        assert(zec_parse_frac((w * ZATOSHI_PER_ZEC) as nat, None::<Seq<u8>>) == zec_range_check(
            (w * ZATOSHI_PER_ZEC) as nat,
        ));
    } else {
        lemma_dec_digits(f);
        lemma_pow10_8();
        lemma_dec_digits_len(f, 8);
        let wd = dec_digits(w);
        let padded = lpad8(dec_digits(f));
        assert(all_digits(padded)) by {
            assert(forall|i: int|
                0 <= i < padded.len() ==> 0x30 <= #[trigger] padded[i] <= 0x39);
        }
        lemma_rpad_trim(padded);
        let tz = trim_zeros_back(padded);
        assert(s =~= wd + seq![0x2eu8] + tz);
        // the first dot sits exactly after the whole digits
        assert(no_dot_prefix_len(s) == wd.len()) by {
            lemma_no_dot_prefix_concat(wd, seq![0x2eu8] + tz);
            assert(s =~= wd + (seq![0x2eu8] + tz));
        }
        let k = no_dot_prefix_len(s);
        assert(s.take(k) =~= wd);
        let frac = s.subrange(k + 1, s.len() as int);
        assert(frac =~= tz);
        assert(no_dot(frac));
        assert(frac.len() <= 8);
        // right-padding the trimmed fraction restores the 8-digit field
        assert(rpad8(tz) =~= padded);
        assert(digits_val(padded) == f) by {
            lemma_digits_val_leading_zeros(
                Seq::new((8 - dec_digits(f).len()) as nat, |i: int| 0x30u8),
                dec_digits(f),
            );
        }
        assert(w * ZATOSHI_PER_ZEC + f == v);
    }
}

/// The dot-free prefix of `a + b` is all of `a` when `a` has no dots and `b`
/// starts with one.
proof fn lemma_no_dot_prefix_concat(a: Seq<u8>, b: Seq<u8>)
    requires
        no_dot(a),
        b.len() > 0,
        b[0] == 0x2e,
    ensures
        no_dot_prefix_len(a + b) == a.len(),
    decreases a.len(),
{
    if a.len() == 0 {
        assert(a + b =~= b);
    } else {
        lemma_no_dot_prefix_concat(a.drop_first(), b);
        assert((a + b).drop_first() =~= a.drop_first() + b);
        assert((a + b)[0] == a[0]);
    }
}

/// Amounts with equal zatoshi counts are the same value.
pub proof fn lemma_zatoshi_eq(a: Zatoshi, b: Zatoshi)
    requires
        a.zat() == b.zat(),
    ensures
        a == b,
{
}

/// The target network of a batch.
#[derive(Debug, Clone, Copy, PartialEq, Eq, Hash, Structural)]
pub enum Network {
    Mainnet,
    Testnet,
}

/// The stable lowercase name of a network.
pub open spec fn spec_network_name(n: Network) -> Seq<char> {
    match n {
        Network::Mainnet => "mainnet"@,
        Network::Testnet => "testnet"@,
    }
}

impl Network {
    /// The stable string identifier used in machine output.
    pub fn as_str(&self) -> (r: &'static str)
        ensures
            r@ == spec_network_name(*self),
    {
        match self {
            Network::Mainnet => "mainnet",
            Network::Testnet => "testnet",
        }
    }
}

/// A validated payment recipient.
#[derive(Debug, Clone, PartialEq, Eq)]
pub struct Recipient {
    pub address: String,
    pub amount: Zatoshi,
    pub memo: Option<String>,
    pub label: Option<String>,
}

/// A complete, deterministic payment request ready for encoding.
#[derive(Debug, Clone, PartialEq, Eq)]
pub struct TransactionIntent {
    pub schema_version: String,
    pub id: String,
    pub created_at: String,
    pub network: Network,
    pub recipients: Vec<Recipient>,
    pub total_zat: Zatoshi,
    pub zip321_uri: String,
    pub payload_bytes: usize,
    pub payload_hash: String,
}

/// Batch-level validation configuration.
#[derive(Debug, Clone, PartialEq, Eq)]
pub struct BatchConfig {
    pub network: Network,
    pub max_recipients: usize,
    pub source_file: String,
}

} // verus!
