//! 256-bit unsigned integer with a canonical 32-byte little-endian codec.
//!
//! A peer's advertised data-storage radius is carried on the wire as exactly
//! 32 bytes, little-endian; decoding any other length fails.

use vstd::prelude::*;

verus! {

use vstd::bytes::{
    lemma_auto_spec_u64_to_from_le_bytes, spec_u64_from_le_bytes, spec_u64_to_le_bytes,
    u64_from_le_bytes, u64_to_le_bytes,
};
use vstd::slice::slice_subrange;

use crate::errors::DecodeError;

/// 256-bit unsigned integer stored as four 64-bit limbs, least significant first.
#[derive(Clone, Copy, Debug, PartialEq, Eq, Structural)]
pub struct U256 {
    pub l0: u64,
    pub l1: u64,
    pub l2: u64,
    pub l3: u64,
}

/// The canonical 32-byte little-endian encoding of a 256-bit value.
pub open spec fn spec_u256_to_le_bytes(v: U256) -> Seq<u8> {
    spec_u64_to_le_bytes(v.l0) + spec_u64_to_le_bytes(v.l1) + spec_u64_to_le_bytes(v.l2)
        + spec_u64_to_le_bytes(v.l3)
}

/// The 256-bit value read from a 32-byte little-endian buffer.
pub open spec fn spec_u256_from_le_bytes(b: Seq<u8>) -> U256
    recommends
        b.len() == 32,
{
    U256 {
        l0: spec_u64_from_le_bytes(b.subrange(0, 8)),
        l1: spec_u64_from_le_bytes(b.subrange(8, 16)),
        l2: spec_u64_from_le_bytes(b.subrange(16, 24)),
        l3: spec_u64_from_le_bytes(b.subrange(24, 32)),
    }
}

impl U256 {
    /// The mathematical value of the four limbs.
    pub open spec fn as_nat(self) -> nat {
        (self.l0 + self.l1 * 0x1_0000_0000_0000_0000
            + self.l2 * 0x1_0000_0000_0000_0000_0000_0000_0000_0000
            + self.l3 * 0x1_0000_0000_0000_0000_0000_0000_0000_0000_0000_0000_0000_0000) as nat
    }

    /// The value `x`, widened to 256 bits.
    pub fn from_u64(x: u64) -> (r: U256)
        ensures
            r == (U256 { l0: x, l1: 0u64, l2: 0u64, l3: 0u64 }),
            r.as_nat() == x,
    {
        U256 { l0: x, l1: 0, l2: 0, l3: 0 }
    }

    /// Encode as exactly 32 bytes, little-endian.
    pub fn encode(&self) -> (r: Vec<u8>)
        ensures
            r@ == spec_u256_to_le_bytes(*self),
            r@.len() == 32,
    {
        proof {
            lemma_auto_spec_u64_to_from_le_bytes();
        }
        let mut out = u64_to_le_bytes(self.l0);
        let mut rest = u64_to_le_bytes(self.l1);
        out.append(&mut rest);
        let mut rest = u64_to_le_bytes(self.l2);
        out.append(&mut rest);
        let mut rest = u64_to_le_bytes(self.l3);
        out.append(&mut rest);
        proof {
            assert(out@ =~= spec_u256_to_le_bytes(*self));
        }
        out
    }

    /// Read a value from a buffer already known to hold exactly 32 bytes.
    pub fn from_le_bytes(b: &[u8]) -> (r: U256)
        requires
            b@.len() == 32,
        ensures
            r == spec_u256_from_le_bytes(b@),
            spec_u256_to_le_bytes(r) == b@,
    {
        proof {
            lemma_auto_spec_u64_to_from_le_bytes();
        }
        let l0 = u64_from_le_bytes(slice_subrange(b, 0, 8));
        let l1 = u64_from_le_bytes(slice_subrange(b, 8, 16));
        let l2 = u64_from_le_bytes(slice_subrange(b, 16, 24));
        let l3 = u64_from_le_bytes(slice_subrange(b, 24, 32));
        let r = U256 { l0, l1, l2, l3 };
        proof {
            assert(spec_u64_to_le_bytes(l0) == b@.subrange(0, 8));
            assert(spec_u64_to_le_bytes(l1) == b@.subrange(8, 16));
            assert(spec_u64_to_le_bytes(l2) == b@.subrange(16, 24));
            assert(spec_u64_to_le_bytes(l3) == b@.subrange(24, 32));
            assert(spec_u256_to_le_bytes(r) =~= b@);
        }
        r
    }

    /// Decode from a buffer; fails unless the buffer holds exactly 32 bytes.
    pub fn decode(b: &[u8]) -> (r: Result<U256, DecodeError>)
        ensures
            b@.len() == 32 ==> (r matches Ok(v) && v == spec_u256_from_le_bytes(b@)
                && spec_u256_to_le_bytes(v) == b@),
            b@.len() != 32 ==> r == Err::<U256, DecodeError>(
                DecodeError::LengthMismatch { actual: b@.len() as usize, expected: 32 },
            ),
    {
        if b.len() != 32 {
            Err(DecodeError::LengthMismatch { actual: b.len(), expected: 32 })
        } else {
            Ok(U256::from_le_bytes(b))
        }
    }
}

/// Decoding inverts encoding: a value's 32-byte encoding reads back as itself.
pub proof fn lemma_u256_round_trip(v: U256)
    ensures
        spec_u256_from_le_bytes(spec_u256_to_le_bytes(v)) == v,
{
    lemma_auto_spec_u64_to_from_le_bytes();
    let b = spec_u256_to_le_bytes(v);
    assert(b.subrange(0, 8) =~= spec_u64_to_le_bytes(v.l0));
    assert(b.subrange(8, 16) =~= spec_u64_to_le_bytes(v.l1));
    assert(b.subrange(16, 24) =~= spec_u64_to_le_bytes(v.l2));
    assert(b.subrange(24, 32) =~= spec_u64_to_le_bytes(v.l3));
}

} // verus!
