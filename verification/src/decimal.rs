//! Decimal digit strings over bytes: formatting, parsing, and the lemmas
//! that make them inverses of each other.

use vstd::prelude::*;

verus! {

/// The ASCII bytes of `n` written in decimal, most significant digit first,
/// with no leading zeros (`0` itself is the single byte `0x30`).
pub open spec fn dec_digits(n: nat) -> Seq<u8>
    decreases n,
{
    if n < 10 {
        seq![(0x30 + n) as u8]
    } else {
        dec_digits(n / 10).push((0x30 + n % 10) as u8)
    }
}

/// Every byte of `s` is an ASCII decimal digit.
pub open spec fn all_digits(s: Seq<u8>) -> bool {
    forall|i: int| 0 <= i < s.len() ==> 0x30 <= #[trigger] s[i] <= 0x39
}

/// The value of a digit string, read most significant digit first.
pub open spec fn digits_val(s: Seq<u8>) -> nat
    decreases s.len(),
{
    if s.len() == 0 {
        0
    } else {
        (digits_val(s.drop_last()) * 10 + (s.last() - 0x30)) as nat
    }
}

/// `dec_digits` produces digits only, at least one, and its value is `n`.
pub proof fn lemma_dec_digits(n: nat)
    ensures
        all_digits(dec_digits(n)),
        dec_digits(n).len() >= 1,
        digits_val(dec_digits(n)) == n,
        n >= 1 ==> dec_digits(n)[0] != 0x30,
        n < 10 ==> dec_digits(n).len() == 1,
    decreases n,
{
    if n < 10 {
        let s = dec_digits(n);
        assert(s =~= seq![(0x30 + n) as u8]);
        assert(s.drop_last() =~= Seq::<u8>::empty());
        assert(digits_val(s.drop_last()) == 0);
        assert(s.last() == (0x30 + n) as u8);
        assert(digits_val(s) == (0 * 10 + (s.last() - 0x30)) as nat);
    } else {
        lemma_dec_digits(n / 10);
        let s = dec_digits(n);
        assert(s =~= dec_digits(n / 10).push((0x30 + n % 10) as u8));
        assert(s.drop_last() =~= dec_digits(n / 10));
        assert(s[0] == dec_digits(n / 10)[0]);
        assert(s.last() == (0x30 + n % 10) as u8);
        assert(digits_val(s) == ((n / 10) * 10 + n % 10) as nat);
        assert(n == (n / 10) * 10 + n % 10);
    }
}

/// Values of digit strings never shrink when digits are appended.
pub proof fn lemma_digits_val_prefix_le(s: Seq<u8>, i: int)
    requires
        0 <= i <= s.len(),
        all_digits(s),
    ensures
        digits_val(s.take(i)) <= digits_val(s),
    decreases s.len() - i,
{
    if i < s.len() {
        assert(s.take(i + 1).drop_last() =~= s.take(i));
        assert(s.take(i + 1).last() == s[i]);
        assert(digits_val(s.take(i + 1)) == digits_val(s.take(i)) * 10 + (s[i] - 0x30));
        assert(digits_val(s.take(i)) <= digits_val(s.take(i + 1)));
        lemma_digits_val_prefix_le(s, i + 1);
        assert(s.take(s.len() as int) =~= s);
    } else {
        assert(s.take(i) =~= s);
    }
}

/// Leading zeros do not change the value of a digit string.
pub proof fn lemma_digits_val_leading_zeros(z: Seq<u8>, s: Seq<u8>)
    requires
        forall|i: int| 0 <= i < z.len() ==> #[trigger] z[i] == 0x30,
    ensures
        digits_val(z + s) == digits_val(s),
    decreases s.len(),
{
    if s.len() == 0 {
        assert(z + s =~= z);
        lemma_digits_val_all_zeros(z);
    } else {
        assert((z + s).drop_last() =~= z + s.drop_last());
        assert((z + s).last() == s.last());
        lemma_digits_val_leading_zeros(z, s.drop_last());
    }
}

/// A string of zero digits has value zero.
pub proof fn lemma_digits_val_all_zeros(z: Seq<u8>)
    requires
        forall|i: int| 0 <= i < z.len() ==> #[trigger] z[i] == 0x30,
    ensures
        digits_val(z) == 0,
    decreases z.len(),
{
    if z.len() > 0 {
        assert(z.last() == z[z.len() - 1]);
        lemma_digits_val_all_zeros(z.drop_last());
    }
}

/// Append the decimal digits of `n` to `out`.
pub fn push_dec_u64(n: u64, out: &mut Vec<u8>)
    ensures
        final(out)@ == old(out)@ + dec_digits(n as nat),
    decreases n,
{
    if n < 10 {
        out.push(0x30 + n as u8);
        assert(out@ =~= old(out)@ + dec_digits(n as nat));
    } else {
        push_dec_u64(n / 10, out);
        out.push(0x30 + (n % 10) as u8);
        assert(out@ =~= old(out)@ + dec_digits(n as nat));
    }
}

/// Parse a byte string of decimal digits into a `u64`.
///
/// Returns `None` when the string is empty, holds a non-digit, or encodes a
/// value above `u64::MAX`.
pub fn parse_dec_u64(s: &[u8]) -> (r: Option<u64>)
    ensures
        r is Some <==> s@.len() > 0 && all_digits(s@) && digits_val(s@) <= u64::MAX,
        r is Some ==> r->0 == digits_val(s@),
{
    if s.len() == 0 {
        return None;
    }
    let mut acc: u64 = 0;
    let mut i: usize = 0;
    while i < s.len()
        invariant
            0 <= i <= s@.len(),
            all_digits(s@.take(i as int)),
            acc == digits_val(s@.take(i as int)),
            digits_val(s@.take(i as int)) <= u64::MAX,
        decreases s@.len() - i,
    {
        let b = s[i];
        if b < 0x30 || b > 0x39 {
            assert(!all_digits(s@));
            return None;
        }
        let d = b - 0x30;
        proof {
            assert(s@.take(i + 1).drop_last() =~= s@.take(i as int));
            assert(s@.take(i + 1).last() == s@[i as int]);
        }
        let acc10 = match acc.checked_mul(10) {
            Some(v) => v,
            None => {
                proof {
                    assert(digits_val(s@.take(i + 1)) > u64::MAX);
                    if all_digits(s@) && digits_val(s@) <= u64::MAX {
                        lemma_digits_val_prefix_le(s@, i + 1);
                    }
                }
                return None;
            },
        };
        acc = match acc10.checked_add(d as u64) {
            Some(v) => v,
            None => {
                proof {
                    assert(digits_val(s@.take(i + 1)) > u64::MAX);
                    if all_digits(s@) && digits_val(s@) <= u64::MAX {
                        lemma_digits_val_prefix_le(s@, i + 1);
                    }
                }
                return None;
            },
        };
        i = i + 1;
    }
    proof {
        assert(s@.take(s@.len() as int) =~= s@);
    }
    Some(acc)
}

} // verus!
