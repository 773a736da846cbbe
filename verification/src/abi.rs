//! The one fixed contract-call shape the aggregation core issues:
//! `balanceOf(address) -> uint256`, encoded per the contract ABI as a
//! 4-byte selector followed by the address left-padded to 32 bytes.

use vstd::prelude::*;
use crate::primitives::Address;

verus! {

/// The 4-byte selector of `balanceOf(address)`.
pub open spec fn balance_of_selector() -> Seq<u8> {
    seq![0x70u8, 0xa0u8, 0x82u8, 0x31u8]
}

/// The full call data of one `balanceOf(address)` call: the selector,
/// twelve bytes of padding, then the 20 address bytes.
pub open spec fn balance_of_call_bytes(addr: Seq<u8>) -> Seq<u8> {
    balance_of_selector() + Seq::new(12, |i: int| 0u8) + addr
}

/// Encodes one read-only `balanceOf(address)` call for the given
/// token-holder address.
pub fn encode_balance_of(addr: &Address) -> (r: Vec<u8>)
    ensures
        r@ == balance_of_call_bytes(addr.bytes@),
        r@.len() == 36,
{
    let mut v: Vec<u8> = Vec::new();
    v.push(0x70);
    v.push(0xa0);
    v.push(0x82);
    v.push(0x31);
    let mut i: usize = 0;
    while i < 12
        invariant
            i <= 12,
            v@ == balance_of_selector() + Seq::new(i as nat, |k: int| 0u8),
        decreases 12 - i,
    {
        v.push(0);
        proof {
            assert(v@ =~= balance_of_selector() + Seq::new((i + 1) as nat, |k: int| 0u8));
        }
        i = i + 1;
    }
    let mut j: usize = 0;
    while j < 20
        invariant
            j <= 20,
            v@ == balance_of_selector() + Seq::new(12, |k: int| 0u8) + addr.bytes@.take(j as int),
        decreases 20 - j,
    {
        v.push(addr.bytes[j]);
        proof {
            assert(addr.bytes@.take(j + 1 as int).drop_last() =~= addr.bytes@.take(j as int));
            assert(v@ =~= balance_of_selector() + Seq::new(12, |k: int| 0u8) + addr.bytes@.take(
                j + 1 as int,
            ));
        }
        j = j + 1;
    }
    proof {
        assert(addr.bytes@.take(20) =~= addr.bytes@);
        assert(v@ =~= balance_of_call_bytes(addr.bytes@));
    }
    v
}

} // verus!
