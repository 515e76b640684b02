//! Byte-level text helpers: ASCII views, whitespace trimming, and the one
//! trusted conversion from UTF-8 bytes back to `String`.

use vstd::prelude::*;
use vstd::utf8::*;

verus! {

/// Every byte is ASCII.
pub open spec fn is_ascii_bytes(s: Seq<u8>) -> bool {
    forall|i: int| 0 <= i < s.len() ==> #[trigger] s[i] < 0x80
}

/// The character sequence spelled by a sequence of ASCII bytes.
pub open spec fn ascii_str(s: Seq<u8>) -> Seq<char> {
    s.map_values(|b: u8| b as char)
}

/// ASCII whitespace bytes, matching `char::is_whitespace` on ASCII.
pub open spec fn is_ws(b: u8) -> bool {
    b == 0x20 || b == 0x09 || b == 0x0a || b == 0x0b || b == 0x0c || b == 0x0d
}

/// `s` without its leading ASCII whitespace.
pub open spec fn trim_front(s: Seq<u8>) -> Seq<u8>
    decreases s.len(),
{
    if s.len() > 0 && is_ws(s[0]) {
        trim_front(s.drop_first())
    } else {
        s
    }
}

/// `s` without its trailing ASCII whitespace.
pub open spec fn trim_back(s: Seq<u8>) -> Seq<u8>
    decreases s.len(),
{
    if s.len() > 0 && is_ws(s.last()) {
        trim_back(s.drop_last())
    } else {
        s
    }
}

/// `s` without leading and trailing ASCII whitespace.
pub open spec fn trim_bytes(s: Seq<u8>) -> Seq<u8> {
    trim_back(trim_front(s))
}

/// A string whose first and last bytes are not whitespace trims to itself.
pub proof fn lemma_trim_id(s: Seq<u8>)
    requires
        s.len() > 0 ==> !is_ws(s[0]) && !is_ws(s.last()),
    ensures
        trim_bytes(s) == s,
{
}

/// Dropping the last byte of a valid UTF-8 sequence keeps it valid when that
/// byte encodes an ASCII character.
pub proof fn lemma_drop_last_ascii_valid(s: Seq<u8>)
    requires
        valid_utf8(s),
        s.len() > 0,
        s.last() < 0x80,
    ensures
        valid_utf8(s.drop_last()),
    decreases s.len(),
{
    let rest = pop_first_scalar(s);
    let k = length_of_first_scalar(s);
    if rest.len() == 0 {
        assert(s.len() == k);
        if k == 1 {
            assert(s.drop_last() =~= Seq::<u8>::empty());
        } else {
            assert(is_continuation_byte(s[s.len() - 1]));
        }
    } else {
        assert(rest.last() == s.last());
        lemma_drop_last_ascii_valid(rest);
        assert(s.drop_last().len() >= k);
        assert(forall|i: int| 0 <= i < k ==> s.drop_last()[i] == s[i]);
        assert(valid_first_scalar(s.drop_last())) by {
            assert(s.drop_last().subrange(0, k) =~= s.subrange(0, k));
        }
        assert(length_of_first_scalar(s.drop_last()) == k);
        assert(pop_first_scalar(s.drop_last()) =~= rest.drop_last());
    }
}

/// Dropping the first byte of a valid UTF-8 sequence keeps it valid when that
/// byte encodes an ASCII character.
pub proof fn lemma_drop_first_ascii_valid(s: Seq<u8>)
    requires
        valid_utf8(s),
        s.len() > 0,
        s[0] < 0x80,
    ensures
        valid_utf8(s.drop_first()),
{
    assert(length_of_first_scalar(s) == 1);
    assert(pop_first_scalar(s) =~= s.drop_first());
}

/// Trimming preserves UTF-8 validity.
pub proof fn lemma_trim_valid_utf8(s: Seq<u8>)
    requires
        valid_utf8(s),
    ensures
        valid_utf8(trim_bytes(s)),
{
    lemma_trim_front_valid_utf8(s);
    lemma_trim_back_valid_utf8(trim_front(s));
}

proof fn lemma_trim_front_valid_utf8(s: Seq<u8>)
    requires
        valid_utf8(s),
    ensures
        valid_utf8(trim_front(s)),
    decreases s.len(),
{
    if s.len() > 0 && is_ws(s[0]) {
        lemma_drop_first_ascii_valid(s);
        lemma_trim_front_valid_utf8(s.drop_first());
    }
}

proof fn lemma_trim_back_valid_utf8(s: Seq<u8>)
    requires
        valid_utf8(s),
    ensures
        valid_utf8(trim_back(s)),
    decreases s.len(),
{
    if s.len() > 0 && is_ws(s.last()) {
        lemma_drop_last_ascii_valid(s);
        lemma_trim_back_valid_utf8(s.drop_last());
    }
}

/// An all-ASCII byte sequence is valid UTF-8 and decodes to the characters it
/// spells.
pub proof fn lemma_ascii_bytes_valid_utf8(s: Seq<u8>)
    requires
        is_ascii_bytes(s),
    ensures
        valid_utf8(s),
        encode_utf8(ascii_str(s)) == s,
        is_ascii_chars(ascii_str(s)),
    decreases s.len(),
{
    let cs = ascii_str(s);
    assert(is_ascii_chars(cs)) by {
        assert(forall|i: int| 0 <= i < s.len() ==> #[trigger] cs[i] == s[i] as char);
    }
    is_ascii_chars_encode_utf8(cs);
    assert(encode_utf8(cs) =~= s);
    encode_utf8_valid_utf8(cs);
}

/// A string is empty exactly when its UTF-8 encoding is.
pub proof fn lemma_encode_utf8_nonempty(s: Seq<char>)
    ensures
        s.len() > 0 <==> encode_utf8(s).len() > 0,
{
    if s.len() > 0 {
        assert(encode_utf8(s) == encode_scalar(s[0] as u32) + encode_utf8(s.drop_first()));
        assert(encode_scalar(s[0] as u32).len() > 0);
    }
}

/// Whether a cell starts with a byte that spreadsheet software would read
/// as a formula: `=`, `+`, `-`, `@`, tab, or carriage return.
pub fn has_formula_prefix(value: &str) -> (r: bool)
    ensures
        r == ({
            let b = encode_utf8(value@);
            b.len() > 0 && (b[0] == 0x3d || b[0] == 0x2b || b[0] == 0x2d || b[0] == 0x40
                || b[0] == 0x09 || b[0] == 0x0d)
        }),
{
    let b = value.as_bytes();
    proof {
        assert(b@ == encode_utf8(value@));
    }
    b.len() > 0 && (b[0] == 0x3d || b[0] == 0x2b || b[0] == 0x2d || b[0] == 0x40 || b[0] == 0x09
        || b[0] == 0x0d)
}

/// The number of leading bytes a UTF-8 byte-order mark occupies: three when
/// present, zero otherwise.
pub fn utf8_bom_len(input: &[u8]) -> (r: usize)
    ensures
        r == (if input@.len() >= 3 && input@[0] == 0xef && input@[1] == 0xbb && input@[2] == 0xbf {
            3int
        } else {
            0int
        }),
{
    if input.len() >= 3 && input[0] == 0xef && input[1] == 0xbb && input[2] == 0xbf {
        3
    } else {
        0
    }
}

/// Whether two string slices spell the same characters.
pub fn str_eq(a: &str, b: &str) -> (r: bool)
    ensures
        r == (a@ == b@),
{
    let ab = a.as_bytes();
    let bb = b.as_bytes();
    proof {
        assert(ab@ == encode_utf8(a@));
        assert(bb@ == encode_utf8(b@));
    }
    if ab.len() != bb.len() {
        proof {
            if a@ == b@ {
                assert(encode_utf8(a@) == encode_utf8(b@));
            }
        }
        return false;
    }
    let mut i: usize = 0;
    while i < ab.len()
        invariant
            0 <= i <= ab@.len(),
            ab@.len() == bb@.len(),
            ab@ == encode_utf8(a@),
            bb@ == encode_utf8(b@),
            forall|j: int| 0 <= j < i ==> #[trigger] ab@[j] == bb@[j],
        decreases ab@.len() - i,
    {
        if ab[i] != bb[i] {
            proof {
                if a@ == b@ {
                    assert(encode_utf8(a@) == encode_utf8(b@));
                }
            }
            return false;
        }
        i = i + 1;
    }
    proof {
        assert(ab@ =~= bb@);
        crate::validation::lemma_encode_utf8_injective(a@, b@);
    }
    true
}

/// Append the decimal digits of `n` as a string.
pub fn usize_to_string(n: usize) -> (r: String)
    ensures
        r@ == ascii_str(crate::decimal::dec_digits(n as nat)),
{
    let mut out: Vec<u8> = Vec::new();
    crate::decimal::push_dec_u64(n as u64, &mut out);
    proof {
        crate::decimal::lemma_dec_digits(n as nat);
        assert(is_ascii_bytes(out@));
    }
    string_from_utf8(out)
}

/// Copy `b[start..end]` into a fresh vector.
pub fn copy_range(b: &[u8], start: usize, end: usize) -> (r: Vec<u8>)
    requires
        0 <= start <= end <= b@.len(),
    ensures
        r@ == b@.subrange(start as int, end as int),
{
    let mut out: Vec<u8> = Vec::new();
    let mut i: usize = start;
    while i < end
        invariant
            start <= i <= end <= b@.len(),
            out@ == b@.subrange(start as int, i as int),
        decreases end - i,
    {
        out.push(b[i]);
        proof {
            assert(b@.subrange(start as int, i + 1) =~= b@.subrange(start as int, i as int).push(
                b@[i as int],
            ));
        }
        i = i + 1;
    }
    out
}

/// Whether a byte is ASCII whitespace.
pub fn is_ws_byte(b: u8) -> (r: bool)
    ensures
        r == is_ws(b),
{
    b == 0x20 || b == 0x09 || b == 0x0a || b == 0x0b || b == 0x0c || b == 0x0d
}

/// The index range of `b` that survives ASCII-whitespace trimming.
pub fn trim_range(b: &[u8]) -> (r: (usize, usize))
    ensures
        0 <= r.0 <= r.1 <= b@.len(),
        b@.subrange(r.0 as int, r.1 as int) == trim_bytes(b@),
{
    let mut start: usize = 0;
    proof {
        assert(b@.subrange(0, b@.len() as int) =~= b@);
    }
    while start < b.len() && is_ws_byte(b[start])
        invariant
            0 <= start <= b@.len(),
            trim_front(b@) == trim_front(b@.subrange(start as int, b@.len() as int)),
        decreases b@.len() - start,
    {
        proof {
            let cur = b@.subrange(start as int, b@.len() as int);
            assert(cur.drop_first() =~= b@.subrange(start + 1, b@.len() as int));
        }
        start = start + 1;
    }
    proof {
        let cur = b@.subrange(start as int, b@.len() as int);
        if cur.len() > 0 {
            assert(cur[0] == b@[start as int]);
        }
        assert(trim_front(cur) == cur);
    }
    let mut end: usize = b.len();
    while end > start && is_ws_byte(b[end - 1])
        invariant
            start <= end <= b@.len(),
            trim_front(b@) == b@.subrange(start as int, b@.len() as int),
            trim_back(b@.subrange(start as int, b@.len() as int)) == trim_back(
                b@.subrange(start as int, end as int),
            ),
        decreases end,
    {
        proof {
            let cur = b@.subrange(start as int, end as int);
            assert(cur.last() == b@[end - 1]);
            assert(cur.drop_last() =~= b@.subrange(start as int, end - 1));
        }
        end = end - 1;
    }
    proof {
        let cur = b@.subrange(start as int, end as int);
        if cur.len() > 0 {
            assert(cur.last() == b@[end - 1]);
        }
        assert(trim_back(cur) == cur);
    }
    (start, end)
}

/// Relies on `String::from_utf8`: valid UTF-8 bytes become the string that
/// decodes from them, and ASCII bytes decode to exactly the characters they
/// spell.
#[verifier::external_body]
pub(crate) fn string_from_utf8(v: Vec<u8>) -> (r: String)
    requires
        valid_utf8(v@) || is_ascii_bytes(v@),
    ensures
        encode_utf8(r@) == v@,
        is_ascii_bytes(v@) ==> r@ == ascii_str(v@),
{
    match String::from_utf8(v) {
        Ok(s) => s,
        Err(_) => String::new(),
    }
}

/// Trim ASCII whitespace from both ends of a string.
pub fn trim_string(s: &str) -> (r: String)
    ensures
        encode_utf8(r@) == trim_bytes(encode_utf8(s@)),
        is_ascii_bytes(encode_utf8(s@)) ==> r@ == ascii_str(trim_bytes(encode_utf8(s@))),
{
    let b = s.as_bytes();
    let (start, end) = trim_range(b);
    let v = copy_range(b, start, end);
    proof {
        encode_utf8_valid_utf8(s@);
        lemma_trim_valid_utf8(b@);
        if is_ascii_bytes(encode_utf8(s@)) {
            assert(is_ascii_bytes(v@));
        }
    }
    string_from_utf8(v)
}

} // verus!
