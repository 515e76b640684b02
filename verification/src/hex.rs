//! Lowercase hex encoding and decoding over bytes.

use vstd::prelude::*;
use crate::text::{ascii_str, is_ascii_bytes, string_from_utf8};

verus! {

/// The lowercase hex digit byte for a nibble below 16.
pub open spec fn spec_hex_digit(n: u8) -> u8 {
    if n < 10 {
        (0x30 + n) as u8
    } else {
        (0x61 + (n - 10)) as u8
    }
}

/// The two lowercase hex digit bytes of one byte.
pub open spec fn hex_byte(b: u8) -> Seq<u8> {
    seq![spec_hex_digit(b / 16), spec_hex_digit(b % 16)]
}

/// The lowercase hex encoding of a byte sequence.
pub open spec fn hex_bytes(s: Seq<u8>) -> Seq<u8>
    decreases s.len(),
{
    if s.len() == 0 {
        Seq::empty()
    } else {
        hex_bytes(s.drop_last()) + hex_byte(s.last())
    }
}

/// The lowercase hex encoding as characters.
pub open spec fn hex_chars(s: Seq<u8>) -> Seq<char> {
    ascii_str(hex_bytes(s))
}

/// Hex encodings are ASCII and twice as long as their input.
pub proof fn lemma_hex_bytes(s: Seq<u8>)
    ensures
        hex_bytes(s).len() == 2 * s.len(),
        is_ascii_bytes(hex_bytes(s)),
    decreases s.len(),
{
    if s.len() > 0 {
        lemma_hex_bytes(s.drop_last());
    }
}

/// The value of a hex digit byte, if it is one.
pub open spec fn spec_hex_nibble(b: u8) -> Option<u8> {
    if 0x30 <= b <= 0x39 {
        Some((b - 0x30) as u8)
    } else if 0x61 <= b <= 0x66 {
        Some((b - 0x61 + 10) as u8)
    } else if 0x41 <= b <= 0x46 {
        Some((b - 0x41 + 10) as u8)
    } else {
        None
    }
}

/// The value of a hex digit byte: digits, lowercase, and uppercase letters.
pub fn hex_nibble(byte: u8) -> (r: Option<u8>)
    ensures
        r == spec_hex_nibble(byte),
        r is Some ==> r->0 < 16,
{
    if 0x30 <= byte && byte <= 0x39 {
        Some(byte - 0x30)
    } else if 0x61 <= byte && byte <= 0x66 {
        Some(byte - 0x61 + 10)
    } else if 0x41 <= byte && byte <= 0x46 {
        Some(byte - 0x41 + 10)
    } else {
        None
    }
}

/// Append the two lowercase hex digits of `b` to `out`.
pub fn push_hex_byte(b: u8, out: &mut Vec<u8>)
    ensures
        final(out)@ == old(out)@ + hex_byte(b),
{
    let hi = b / 16;
    let lo = b % 16;
    let hi_d = if hi < 10 {
        0x30 + hi
    } else {
        0x61 + (hi - 10)
    };
    let lo_d = if lo < 10 {
        0x30 + lo
    } else {
        0x61 + (lo - 10)
    };
    out.push(hi_d);
    out.push(lo_d);
    assert(out@ =~= old(out)@ + hex_byte(b));
}

/// Encode bytes as a lowercase hex string.
pub fn to_lower_hex(data: &[u8]) -> (r: String)
    ensures
        r@ == hex_chars(data@),
        r@.len() == 2 * data@.len(),
{
    let mut out: Vec<u8> = Vec::new();
    let mut i: usize = 0;
    while i < data.len()
        invariant
            0 <= i <= data@.len(),
            out@ == hex_bytes(data@.take(i as int)),
        decreases data@.len() - i,
    {
        push_hex_byte(data[i], &mut out);
        proof {
            assert(data@.take(i + 1).drop_last() =~= data@.take(i as int));
            assert(data@.take(i + 1).last() == data@[i as int]);
        }
        i = i + 1;
    }
    proof {
        assert(data@.take(data@.len() as int) =~= data@);
        lemma_hex_bytes(data@);
    }
    string_from_utf8(out)
}

/// The bytes a hex string decodes to, if it is well formed: even length, hex
/// digits only.
pub open spec fn unhex_bytes(s: Seq<u8>) -> Option<Seq<u8>>
    decreases s.len(),
{
    if s.len() == 0 {
        Some(Seq::empty())
    } else if s.len() == 1 {
        None
    } else {
        match (unhex_bytes(s.drop_last().drop_last()), spec_hex_nibble(s[s.len() - 2]),
        spec_hex_nibble(s.last())) {
            (Some(rest), Some(hi), Some(lo)) => Some(rest.push((hi * 16 + lo) as u8)),
            _ => None,
        }
    }
}

/// Decode a hex string into bytes; `None` on odd length or a non-hex digit.
pub fn from_hex(input: &str) -> (r: Option<Vec<u8>>)
    ensures
        match r {
            Some(v) => unhex_bytes(vstd::utf8::encode_utf8(input@)) == Some(v@),
            None => unhex_bytes(vstd::utf8::encode_utf8(input@)) is None,
        },
{
    let bytes = input.as_bytes();
    proof {
        assert(bytes@ == vstd::utf8::encode_utf8(input@));
    }
    if bytes.len() % 2 != 0 {
        proof {
            lemma_unhex_odd(bytes@);
        }
        return None;
    }
    let mut out: Vec<u8> = Vec::new();
    let mut i: usize = 0;
    while i < bytes.len()
        invariant
            0 <= i <= bytes@.len(),
            i % 2 == 0,
            bytes@.len() % 2 == 0,
            bytes@ == vstd::utf8::encode_utf8(input@),
            unhex_bytes(bytes@.take(i as int)) == Some(out@),
        decreases bytes@.len() - i,
    {
        let hi = match hex_nibble(bytes[i]) {
            Some(v) => v,
            None => {
                proof {
                    lemma_unhex_bad_digit(bytes@, i as int);
                }
                return None;
            },
        };
        let lo = match hex_nibble(bytes[i + 1]) {
            Some(v) => v,
            None => {
                proof {
                    lemma_unhex_bad_digit(bytes@, i + 1);
                }
                return None;
            },
        };
        out.push(hi * 16 + lo);
        proof {
            let t = bytes@.take(i + 2);
            assert(t.drop_last().drop_last() =~= bytes@.take(i as int));
            assert(t[t.len() - 2] == bytes@[i as int]);
            assert(t.last() == bytes@[i + 1]);
        }
        i = i + 2;
    }
    proof {
        assert(bytes@.take(bytes@.len() as int) =~= bytes@);
    }
    Some(out)
}

/// A hex string of odd length never decodes.
proof fn lemma_unhex_odd(s: Seq<u8>)
    requires
        s.len() % 2 == 1,
    ensures
        unhex_bytes(s) is None,
    decreases s.len(),
{
    if s.len() > 1 {
        lemma_unhex_odd(s.drop_last().drop_last());
    }
}

/// A non-hex digit anywhere makes the whole string undecodable.
proof fn lemma_unhex_bad_digit(s: Seq<u8>, i: int)
    requires
        s.len() % 2 == 0,
        0 <= i < s.len(),
        spec_hex_nibble(s[i]) is None,
    ensures
        unhex_bytes(s) is None,
    decreases s.len(),
{
    if s.len() >= 2 {
        if i < s.len() - 2 {
            lemma_unhex_bad_digit(s.drop_last().drop_last(), i);
        }
    }
}

} // verus!
