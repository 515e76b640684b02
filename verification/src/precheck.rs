//! Lightweight address and memo pre-checks: prefix and character rules
//! only, with no full decoding.

use vstd::prelude::*;
use vstd::utf8::encode_utf8;
use crate::text::{copy_range, trim_bytes, trim_range};
use crate::types::Network;
use crate::validation::pre;

verus! {

/// Maximum allowed memo length in encoded bytes.
pub const MAX_MEMO_BYTES: usize = 512;

/// Why a lightweight address check failed.
#[derive(Debug, Clone, PartialEq, Eq)]
pub enum AddressValidationError {
    Empty,
    InvalidCharacters,
    InvalidPrefix,
    NetworkMismatch { expected: &'static str },
}

/// Why a lightweight memo check failed.
#[derive(Debug, Clone, PartialEq, Eq)]
pub enum MemoValidationError {
    TooLong { limit: usize, actual: usize },
}

/// Every byte is an ASCII letter or digit.
pub open spec fn all_alnum(s: Seq<u8>) -> bool {
    forall|i: int|
        0 <= i < s.len() ==> (0x30 <= #[trigger] s[i] <= 0x39 || 0x41 <= s[i] <= 0x5a || 0x61
            <= s[i] <= 0x7a)
}

/// Whether the trimmed bytes carry a known mainnet prefix.
pub open spec fn main_prefixed(t: Seq<u8>) -> bool {
    pre(t, "u1"@) || pre(t, "t1"@)
}

/// Whether the trimmed bytes carry a known testnet prefix.
pub open spec fn test_prefixed(t: Seq<u8>) -> bool {
    pre(t, "utest1"@) || pre(t, "tm"@)
}

/// The lightweight judgement on one address string.
pub open spec fn precheck_address(t: Seq<u8>, network: Network) -> Result<
    (),
    AddressValidationError,
> {
    if t.len() == 0 {
        Err(AddressValidationError::Empty)
    } else if !all_alnum(t) {
        Err(AddressValidationError::InvalidCharacters)
    } else if !main_prefixed(t) && !test_prefixed(t) {
        Err(AddressValidationError::InvalidPrefix)
    } else {
        match network {
            Network::Mainnet => if main_prefixed(t) {
                Ok(())
            } else {
                Err(AddressValidationError::NetworkMismatch { expected: "mainnet" })
            },
            Network::Testnet => if test_prefixed(t) {
                Ok(())
            } else {
                Err(AddressValidationError::NetworkMismatch { expected: "testnet" })
            },
        }
    }
}

/// Check that an address is present, alphanumeric ASCII, and carries a
/// known prefix of the selected network.
pub fn validate_address(addr: &str, network: Network) -> (r: Result<(), AddressValidationError>)
    ensures
        r == precheck_address(trim_bytes(encode_utf8(addr@)), network),
{
    let b = addr.as_bytes();
    let (st, en) = trim_range(b);
    let t = copy_range(b, st, en);
    let ghost tb = trim_bytes(encode_utf8(addr@));
    proof {
        assert(t@ == tb);
    }
    if t.len() == 0 {
        return Err(AddressValidationError::Empty);
    }
    let mut i: usize = 0;
    while i < t.len()
        invariant
            0 <= i <= t@.len(),
            t@ == trim_bytes(encode_utf8(addr@)),
            t@.len() > 0,
            all_alnum(t@.take(i as int)),
        decreases t@.len() - i,
    {
        let c = t[i];
        let ok = (0x30 <= c && c <= 0x39) || (0x41 <= c && c <= 0x5a) || (0x61 <= c && c <= 0x7a);
        proof {
            assert(t@.take(i + 1).drop_last() =~= t@.take(i as int));
            assert(t@.take(i + 1).last() == t@[i as int]);
        }
        if !ok {
            proof {
                assert(!all_alnum(t@));
            }
            return Err(AddressValidationError::InvalidCharacters);
        }
        proof {
            assert(forall|j: int|
                0 <= j < i + 1 ==> (0x30 <= #[trigger] t@.take(i + 1)[j] <= 0x39 || 0x41
                    <= t@.take(i + 1)[j] <= 0x5a || 0x61 <= t@.take(i + 1)[j] <= 0x7a));
        }
        i = i + 1;
    }
    proof {
        assert(t@.take(t@.len() as int) =~= t@);
    }
    let is_mainnet = has_pre(&t, "u1") || has_pre(&t, "t1");
    let is_testnet = has_pre(&t, "utest1") || has_pre(&t, "tm");
    if !is_mainnet && !is_testnet {
        return Err(AddressValidationError::InvalidPrefix);
    }
    match network {
        Network::Mainnet => if is_mainnet {
            Ok(())
        } else {
            Err(AddressValidationError::NetworkMismatch { expected: "mainnet" })
        },
        Network::Testnet => if is_testnet {
            Ok(())
        } else {
            Err(AddressValidationError::NetworkMismatch { expected: "testnet" })
        },
    }
}

/// Whether `v` starts with the bytes of `p`.
fn has_pre(v: &Vec<u8>, p: &str) -> (r: bool)
    ensures
        r == pre(v@, p@),
{
    crate::validation::has_prefix(v, p)
}

/// Enforce the memo byte limit.
pub fn validate_memo(memo: &str) -> (r: Result<(), MemoValidationError>)
    ensures
        (r is Ok) <==> encode_utf8(memo@).len() <= MAX_MEMO_BYTES,
        !(r is Ok) ==> r == Err::<(), MemoValidationError>(MemoValidationError::TooLong {
            limit: MAX_MEMO_BYTES,
            actual: encode_utf8(memo@).len() as usize,
        }),
{
    let mb = memo.as_bytes();
    proof {
        assert(mb@ == encode_utf8(memo@));
    }
    let len = mb.len();
    if len > MAX_MEMO_BYTES {
        Err(MemoValidationError::TooLong { limit: MAX_MEMO_BYTES, actual: len })
    } else {
        Ok(())
    }
}

} // verus!
