//! Presentation helpers shared by human and machine output: address
//! truncation and two-decimal ZEC formatting.

use vstd::prelude::*;
use vstd::utf8::encode_utf8;
use crate::decimal::{dec_digits, lemma_dec_digits};
use crate::text::{ascii_str, copy_range, is_ascii_bytes, string_from_utf8, trim_bytes,
    trim_range};
use crate::types::{lemma_dec_digits_len, lemma_pow10_8, lpad8, ZATOSHI_PER_ZEC};

verus! {

/// Human (interactive) vs agent (machine) output selection.
#[derive(Debug, Clone, Copy, PartialEq, Eq, Structural)]
pub enum OutputMode {
    Human,
    Agent,
}

/// A structured error collected for a specific input row.
#[derive(Debug, Clone, PartialEq, Eq)]
pub struct RowIssue {
    pub row: usize,
    pub field: String,
    pub message: String,
}

/// What truncation does to the characters of a trimmed address: fourteen or
/// fewer stay as they are; longer addresses keep their first six and last
/// four around an ellipsis.
pub open spec fn truncated_chars(cs: Seq<char>) -> Seq<char> {
    if cs.len() <= 14 {
        cs
    } else {
        cs.take(6) + "..."@ + cs.skip(cs.len() - 4)
    }
}

/// The byte index where the `k`-th character of `b` starts, or the length
/// when there are fewer; on ASCII bytes this is just `min(k, len)`.
fn char_start_index(b: &Vec<u8>, k: usize) -> (r: usize)
    ensures
        0 <= r <= b@.len(),
        is_ascii_bytes(b@) ==> r == (if k <= b@.len() {
            k as int
        } else {
            b@.len() as int
        }),
        r < b@.len() ==> !(0x80 <= b@[r as int] < 0xc0),
{
    let mut i: usize = 0;
    let mut seen: usize = 0;
    while i < b.len()
        invariant
            0 <= i <= b@.len(),
            seen <= i,
            seen <= k,
            is_ascii_bytes(b@) ==> seen == i && i <= k,
        decreases b@.len() - i,
    {
        if !(0x80 <= b[i] && b[i] < 0xc0) {
            if seen == k {
                return i;
            }
            seen = seen + 1;
        }
        i = i + 1;
    }
    b.len()
}

/// How many characters `b` spells: its count of non-continuation bytes.
fn char_count(b: &Vec<u8>) -> (r: usize)
    ensures
        is_ascii_bytes(b@) ==> r == b@.len(),
{
    let mut i: usize = 0;
    let mut n: usize = 0;
    while i < b.len()
        invariant
            0 <= i <= b@.len(),
            n <= i,
            is_ascii_bytes(b@) ==> n == i,
        decreases b@.len() - i,
    {
        if !(0x80 <= b[i] && b[i] < 0xc0) {
            n = n + 1;
        }
        i = i + 1;
    }
    n
}

/// Truncate a long address for table display, keeping its first six and
/// last four characters.
pub fn truncate_address(addr: &str) -> (r: String)
    ensures
        is_ascii_bytes(encode_utf8(addr@)) ==> r@ == truncated_chars(
            ascii_str(trim_bytes(encode_utf8(addr@))),
        ),
{
    let b = addr.as_bytes();
    proof {
        assert(b@ == encode_utf8(addr@));
        vstd::utf8::encode_utf8_valid_utf8(addr@);
        crate::text::lemma_trim_valid_utf8(b@);
    }
    let (st, en) = trim_range(b);
    let tv = copy_range(b, st, en);
    let ghost tb = trim_bytes(encode_utf8(addr@));
    let n = char_count(&tv);
    if n <= 14 {
        proof {
            if is_ascii_bytes(b@) {
                assert(is_ascii_bytes(tv@));
            }
        }
        return string_from_utf8(tv);
    }
    let p = char_start_index(&tv, 6);
    let q = char_start_index(&tv, n - 4);
    proof {
        vstd::utf8::is_char_boundary_start_end_of_seq(tv@);
        if p < tv@.len() {
            vstd::utf8::is_char_boundary_iff_not_is_continuation_byte(tv@, p as int);
        }
        if q < tv@.len() {
            vstd::utf8::is_char_boundary_iff_not_is_continuation_byte(tv@, q as int);
        }
        vstd::utf8::valid_utf8_split(tv@, p as int);
        vstd::utf8::valid_utf8_split(tv@, q as int);
        assert(tv@.subrange(0, p as int) =~= tv@.take(p as int));
        assert(tv@.subrange(q as int, tv@.len() as int) =~= tv@.skip(q as int));
    }
    let head = copy_range(tv.as_slice(), 0, p);
    let tail = copy_range(tv.as_slice(), q, tv.len());
    let mut out = string_from_utf8(head);
    out.append("...");
    let tail_s = string_from_utf8(tail);
    out.append(tail_s.as_str());
    proof {
        if is_ascii_bytes(b@) {
            assert(is_ascii_bytes(tv@));
            assert(out@ =~= truncated_chars(ascii_str(tb))) by {
                assert(ascii_str(tv@.take(6)) =~= ascii_str(tv@).take(6));
                assert(ascii_str(tv@.skip(tv@.len() - 4)) =~= ascii_str(tv@).skip(tv@.len() - 4));
            }
        }
    }
    out
}

/// The two-or-more decimal rendering of the fraction digits: trailing zeros
/// fall away, but never below two digits.
pub open spec fn trim_zeros_min2(s: Seq<u8>) -> Seq<u8>
    decreases s.len(),
{
    if s.len() > 2 && s.last() == 0x30 {
        trim_zeros_min2(s.drop_last())
    } else {
        s
    }
}

/// Format a zatoshi amount as a ZEC string with at least two decimals and a
/// currency suffix.
pub fn format_zat_as_zec(amount_zat: u64) -> (r: String)
    ensures
        r@ == ascii_str(
            dec_digits((amount_zat / ZATOSHI_PER_ZEC) as nat) + seq![0x2eu8] + trim_zeros_min2(
                lpad8(dec_digits((amount_zat % ZATOSHI_PER_ZEC) as nat)),
            ),
        ) + " ZEC"@,
{
    let whole = amount_zat / ZATOSHI_PER_ZEC;
    let frac = amount_zat % ZATOSHI_PER_ZEC;
    let mut out: Vec<u8> = Vec::new();
    crate::decimal::push_dec_u64(whole, &mut out);
    out.push(0x2e);
    proof {
        lemma_dec_digits(whole as nat);
        lemma_dec_digits(frac as nat);
        lemma_pow10_8();
        lemma_dec_digits_len(frac as nat, 8);
    }
    let mut fd: Vec<u8> = Vec::new();
    crate::decimal::push_dec_u64(frac, &mut fd);
    let mut frac_buf: Vec<u8> = Vec::new();
    let mut pad: usize = 8 - fd.len();
    while pad > 0
        invariant
            frac_buf@.len() + pad + fd@.len() == 8,
            forall|i: int| 0 <= i < frac_buf@.len() ==> #[trigger] frac_buf@[i] == 0x30u8,
        decreases pad,
    {
        frac_buf.push(0x30);
        pad = pad - 1;
    }
    let mut fi: usize = 0;
    while fi < fd.len()
        invariant
            0 <= fi <= fd@.len(),
            fd@ == dec_digits(frac as nat),
            frac_buf@ =~= Seq::new((8 - fd@.len()) as nat, |i: int| 0x30u8) + fd@.take(fi as int),
        decreases fd@.len() - fi,
    {
        frac_buf.push(fd[fi]);
        proof {
            assert(fd@.take(fi + 1) =~= fd@.take(fi as int).push(fd@[fi as int]));
        }
        fi = fi + 1;
    }
    proof {
        assert(fd@.take(fd@.len() as int) =~= fd@);
        assert(frac_buf@ =~= lpad8(dec_digits(frac as nat)));
    }
    let ghost orig = frac_buf@;
    while frac_buf.len() > 2 && frac_buf[frac_buf.len() - 1] == 0x30
        invariant
            trim_zeros_min2(frac_buf@) == trim_zeros_min2(orig),
        decreases frac_buf@.len(),
    {
        proof {
            assert(frac_buf@.drop_last() =~= frac_buf@.take(frac_buf@.len() - 1));
        }
        frac_buf.pop();
    }
    proof {
        assert(trim_zeros_min2(frac_buf@) == frac_buf@);
    }
    let mut bi: usize = 0;
    let ghost before = out@;
    while bi < frac_buf.len()
        invariant
            0 <= bi <= frac_buf@.len(),
            out@ =~= before + frac_buf@.take(bi as int),
        decreases frac_buf@.len() - bi,
    {
        out.push(frac_buf[bi]);
        proof {
            assert(frac_buf@.take(bi + 1) =~= frac_buf@.take(bi as int).push(
                frac_buf@[bi as int],
            ));
        }
        bi = bi + 1;
    }
    proof {
        assert(frac_buf@.take(frac_buf@.len() as int) =~= frac_buf@);
        assert(out@ =~= dec_digits((amount_zat / ZATOSHI_PER_ZEC) as nat) + seq![0x2eu8]
            + trim_zeros_min2(lpad8(dec_digits((amount_zat % ZATOSHI_PER_ZEC) as nat))));
        assert(is_ascii_bytes(out@)) by {
            assert(trim_zeros_min2(orig).len() <= orig.len()) by {
                lemma_trim_zeros_min2_len(orig);
            }
            assert(forall|i: int|
                0 <= i < frac_buf@.len() ==> 0x30 <= #[trigger] frac_buf@[i] <= 0x39) by {
                lemma_trim_zeros_min2_digits(orig);
            }
        }
    }
    let mut s = string_from_utf8(out);
    s.append(" ZEC");
    s
}

/// Trimming to two decimals keeps digits and never grows the string.
proof fn lemma_trim_zeros_min2_len(s: Seq<u8>)
    ensures
        trim_zeros_min2(s).len() <= s.len(),
    decreases s.len(),
{
    if s.len() > 2 && s.last() == 0x30 {
        lemma_trim_zeros_min2_len(s.drop_last());
    }
}

/// Trimming to two decimals preserves the all-digits property.
proof fn lemma_trim_zeros_min2_digits(s: Seq<u8>)
    requires
        crate::decimal::all_digits(s),
    ensures
        crate::decimal::all_digits(trim_zeros_min2(s)),
    decreases s.len(),
{
    if s.len() > 2 && s.last() == 0x30 {
        lemma_trim_zeros_min2_digits(s.drop_last());
    }
}

} // verus!
