//! Tracked fungible-token descriptors and queried token balances, and
//! the zero-balance filter applied to every token sweep.

use vstd::prelude::*;
use crate::primitives::{Address, U256};

verus! {

/// Static metadata of one tracked token contract on one chain.
#[derive(Debug)]
pub struct TokenMetadata {
    /// Human-readable token name.
    pub name: String,
    /// Contract address of the token on its chain.
    pub address: Address,
    /// Token symbol.
    pub symbol: String,
    /// Number of decimals the token uses.
    pub decimals: u8,
}

impl Clone for TokenMetadata {
    fn clone(&self) -> (r: Self)
        ensures
            r == *self,
    {
        TokenMetadata {
            name: self.name.clone(),
            address: self.address,
            symbol: self.symbol.clone(),
            decimals: self.decimals,
        }
    }
}

/// One tracked token paired with the balance a sweep found for it.
#[derive(Debug)]
pub struct TokenBalance {
    /// The token the balance belongs to.
    pub token: TokenMetadata,
    /// The queried balance.
    pub balance: U256,
}

impl Clone for TokenBalance {
    fn clone(&self) -> (r: Self)
        ensures
            r == *self,
    {
        TokenBalance { token: self.token.clone(), balance: self.balance }
    }
}

/// The result of a token sweep: each token whose balance query came
/// back (`Some`) with a nonzero balance, in catalog order, paired with
/// that balance. Failed queries (`None`) and zero balances are left
/// out.
pub open spec fn swept(tokens: Seq<TokenMetadata>, outcomes: Seq<Option<U256>>) -> Seq<
    TokenBalance,
>
    decreases tokens.len(),
{
    if tokens.len() == 0 {
        Seq::empty()
    } else {
        let prefix = swept(tokens.drop_last(), outcomes.drop_last());
        match outcomes[tokens.len() - 1] {
            Some(b) => if b.as_nat() != 0 {
                prefix.push(TokenBalance { token: tokens.last(), balance: b })
            } else {
                prefix
            },
            None => prefix,
        }
    }
}

/// No entry of a token sweep carries a zero balance: a token appears
/// in the result only with a nonzero queried balance.
pub proof fn lemma_swept_nonzero(tokens: Seq<TokenMetadata>, outcomes: Seq<Option<U256>>)
    ensures
        forall|j: int|
            0 <= j < swept(tokens, outcomes).len() ==> (#[trigger] swept(tokens, outcomes)[j])
                .balance.as_nat() != 0,
    decreases tokens.len(),
{
    if tokens.len() > 0 {
        lemma_swept_nonzero(tokens.drop_last(), outcomes.drop_last());
        let prefix = swept(tokens.drop_last(), outcomes.drop_last());
        let s = swept(tokens, outcomes);
        match outcomes[tokens.len() - 1] {
            Some(b) => {
                if b.as_nat() != 0 {
                    assert(s == prefix.push(TokenBalance { token: tokens.last(), balance: b }));
                    assert forall|j: int| 0 <= j < s.len() implies s[j].balance.as_nat() != 0 by {
                        if j < prefix.len() {
                            assert(s[j] == prefix[j]);
                        } else {
                            assert(s[j].balance == b);
                        }
                    }
                } else {
                    assert(s == prefix);
                }
            },
            None => {
                assert(s == prefix);
            },
        }
    }
}

} // verus!
