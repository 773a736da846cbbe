//! Plain-value models of the two on-chain primitive types the
//! aggregation core works with: a 20-byte account address and an
//! unsigned 256-bit balance.

use vstd::prelude::*;
use vstd::string::*;
use crate::hexfmt::{bytes_to_hex, hex_of_bytes};

verus! {

/// A 20-byte account or contract address.
#[derive(Debug, Clone, Copy, PartialEq, Eq)]
pub struct Address {
    pub bytes: [u8; 20],
}

impl Address {
    /// Builds an address from its 20 raw bytes.
    pub fn from_array(bytes: [u8; 20]) -> (r: Address)
        ensures
            r.bytes@ == bytes@,
    {
        Address { bytes }
    }

    /// Renders the address in the conventional `0x`-prefixed lowercase
    /// hexadecimal form.
    pub fn to_hex(&self) -> (r: String)
        ensures
            r@ == seq!['0', 'x'] + hex_of_bytes(self.bytes@),
            r@.len() == 42,
    {
        proof {
            reveal_strlit("0x");
            crate::hexfmt::lemma_hex_of_bytes_len(self.bytes@);
        }
        let mut s = String::new();
        s.append("0x");
        let hex = bytes_to_hex(self.bytes.as_slice());
        s.append(hex.as_str());
        proof {
            assert(s@ =~= seq!['0', 'x'] + hex_of_bytes(self.bytes@));
        }
        s
    }
}

/// An unsigned 256-bit integer, held as four 64-bit limbs, least
/// significant first.
#[derive(Debug, Clone, Copy, PartialEq, Eq, Structural)]
pub struct U256 {
    pub w0: u64,
    pub w1: u64,
    pub w2: u64,
    pub w3: u64,
}

impl U256 {
    /// The mathematical value of the four limbs.
    pub open spec fn as_nat(&self) -> nat {
        (self.w0 + self.w1 * 0x1_0000_0000_0000_0000 + self.w2 * 0x1_0000_0000_0000_0000_0000_0000_0000_0000
            + self.w3 * 0x1_0000_0000_0000_0000_0000_0000_0000_0000_0000_0000_0000_0000) as nat
    }

    /// The zero balance.
    pub fn zero() -> (r: U256)
        ensures
            r.as_nat() == 0,
            r == (U256 { w0: 0, w1: 0, w2: 0, w3: 0 }),
    {
        U256 { w0: 0, w1: 0, w2: 0, w3: 0 }
    }

    /// Builds a value from its four 64-bit limbs, least significant
    /// first.
    pub fn from_limbs(w0: u64, w1: u64, w2: u64, w3: u64) -> (r: U256)
        ensures
            r == (U256 { w0, w1, w2, w3 }),
    {
        U256 { w0, w1, w2, w3 }
    }

    /// Builds a small value.
    pub fn from_u64(v: u64) -> (r: U256)
        ensures
            r.as_nat() == v,
            r == (U256 { w0: v, w1: 0, w2: 0, w3: 0 }),
    {
        U256 { w0: v, w1: 0, w2: 0, w3: 0 }
    }

    /// True exactly on the zero value.
    pub fn is_zero(&self) -> (r: bool)
        ensures
            r == (self.as_nat() == 0),
    {
        proof {
            lemma_u256_zero_iff_limbs_zero(*self);
        }
        self.w0 == 0 && self.w1 == 0 && self.w2 == 0 && self.w3 == 0
    }
}

/// A 256-bit value is zero exactly when each of its limbs is zero.
proof fn lemma_u256_zero_iff_limbs_zero(v: U256)
    ensures
        (v.as_nat() == 0) <==> (v.w0 == 0 && v.w1 == 0 && v.w2 == 0 && v.w3 == 0),
{
    assert(v.w1 * 0x1_0000_0000_0000_0000 >= 0) by (nonlinear_arith);
    assert(v.w2 * 0x1_0000_0000_0000_0000_0000_0000_0000_0000 >= 0) by (nonlinear_arith);
    assert(v.w3 * 0x1_0000_0000_0000_0000_0000_0000_0000_0000_0000_0000_0000_0000 >= 0)
        by (nonlinear_arith);
    if v.w1 != 0 {
        assert(v.w1 * 0x1_0000_0000_0000_0000 > 0) by (nonlinear_arith)
            requires
                v.w1 > 0,
        ;
    }
    if v.w2 != 0 {
        assert(v.w2 * 0x1_0000_0000_0000_0000_0000_0000_0000_0000 > 0) by (nonlinear_arith)
            requires
                v.w2 > 0,
        ;
    }
    if v.w3 != 0 {
        assert(v.w3 * 0x1_0000_0000_0000_0000_0000_0000_0000_0000_0000_0000_0000_0000 > 0)
            by (nonlinear_arith)
            requires
                v.w3 > 0,
        ;
    }
}

} // verus!
