//! The per-chain client: one chain's descriptor, its selected RPC
//! endpoint, its block-explorer credential and its owned token
//! catalog, together with the decision logic of the three per-chain
//! operations.

use vstd::prelude::*;
use crate::chain::{meta_like, ChainMetaData, NativeCurrency};
use crate::error::ClientError;
use crate::primitives::U256;
use crate::token::{swept, TokenBalance, TokenMetadata};

verus! {

/// A client for a single chain. The live transports (a JSON-RPC
/// transport bound to `rpc_url`, a block-explorer transport bound to
/// `etherscan_api_key`) are owned by the unverified shell; the client
/// holds the plain values those transports are built from.
#[derive(Debug)]
pub struct EvmChainClient {
    /// The chain's descriptor.
    pub metadata: ChainMetaData,
    /// The selected RPC endpoint.
    pub rpc_url: String,
    /// The block-explorer API credential.
    pub etherscan_api_key: String,
    /// The owned, extendable token catalog.
    pub tokens: Vec<TokenMetadata>,
}

impl Clone for EvmChainClient {
    fn clone(&self) -> (r: Self)
        ensures
            meta_like(&r.metadata, &self.metadata),
            r.rpc_url == self.rpc_url,
            r.etherscan_api_key == self.etherscan_api_key,
            r.tokens@ == self.tokens@,
    {
        let tokens = self.tokens.clone();
        proof {
            assert(tokens@ =~= self.tokens@);
        }
        EvmChainClient {
            metadata: self.metadata.clone(),
            rpc_url: self.rpc_url.clone(),
            etherscan_api_key: self.etherscan_api_key.clone(),
            tokens,
        }
    }
}

impl EvmChainClient {
    /// Constructs a client from its parts.
    pub fn new(
        metadata: ChainMetaData,
        rpc_url: String,
        etherscan_api_key: String,
        tokens: Vec<TokenMetadata>,
    ) -> (r: Self)
        ensures
            r == (EvmChainClient { metadata, rpc_url, etherscan_api_key, tokens }),
    {
        EvmChainClient { metadata, rpc_url, etherscan_api_key, tokens }
    }

    /// The chain's descriptor.
    pub fn metadata(&self) -> (r: &ChainMetaData)
        ensures
            r == &self.metadata,
    {
        &self.metadata
    }

    /// The selected RPC endpoint.
    pub fn rpc_url(&self) -> (r: &String)
        ensures
            r == &self.rpc_url,
    {
        &self.rpc_url
    }

    /// The block-explorer API credential.
    pub fn etherscan_api_key(&self) -> (r: &String)
        ensures
            r == &self.etherscan_api_key,
    {
        &self.etherscan_api_key
    }

    /// The tracked tokens of the chain.
    pub fn tokens(&self) -> (r: &Vec<TokenMetadata>)
        ensures
            r == &self.tokens,
    {
        &self.tokens
    }

    /// The native currency metadata of the chain.
    pub fn native_currency(&self) -> (r: &NativeCurrency)
        ensures
            r == &self.metadata.native_currency,
    {
        &self.metadata.native_currency
    }

    /// Appends tokens to the catalog. Entries are kept as given: no
    /// de-duplication is performed.
    pub fn add_tokens(&mut self, tokens: Vec<TokenMetadata>)
        ensures
            final(self).tokens@ == old(self).tokens@ + tokens@,
            final(self).metadata == old(self).metadata,
            final(self).rpc_url == old(self).rpc_url,
            final(self).etherscan_api_key == old(self).etherscan_api_key,
    {
        let mut incoming = tokens;
        self.tokens.append(&mut incoming);
    }

    /// Turns the outcome of the one native-balance RPC call into the
    /// operation's result: the balance as fetched, or a transport
    /// error carrying the transport's own message.
    pub fn native_balance_result(&self, outcome: Result<U256, String>) -> (r: Result<
        U256,
        ClientError,
    >)
        ensures
            match outcome {
                Ok(b) => r == Ok::<U256, ClientError>(b),
                Err(m) => r == Err::<U256, ClientError>(ClientError::Transport(m)),
            },
    {
        match outcome {
            Ok(b) => Ok(b),
            Err(m) => Err(ClientError::Transport(m)),
        }
    }

    /// Merges the per-token call outcomes of one token sweep into the
    /// sweep's result: catalog order, failed calls swallowed, zero
    /// balances filtered out.
    pub fn collect_token_balances(&self, outcomes: &Vec<Option<U256>>) -> (r: Vec<TokenBalance>)
        requires
            outcomes@.len() == self.tokens@.len(),
        ensures
            r@ == swept(self.tokens@, outcomes@),
    {
        let mut r: Vec<TokenBalance> = Vec::new();
        let mut i: usize = 0;
        while i < self.tokens.len()
            invariant
                i <= self.tokens@.len(),
                outcomes@.len() == self.tokens@.len(),
                r@ == swept(self.tokens@.take(i as int), outcomes@.take(i as int)),
            decreases self.tokens@.len() - i,
        {
            match outcomes[i] {
                Some(b) => {
                    if !b.is_zero() {
                        r.push(TokenBalance { token: self.tokens[i].clone(), balance: b });
                    }
                },
                None => {},
            }
            proof {
                let tk = self.tokens@.take(i + 1 as int);
                let oc = outcomes@.take(i + 1 as int);
                assert(tk.drop_last() =~= self.tokens@.take(i as int));
                assert(oc.drop_last() =~= outcomes@.take(i as int));
                assert(tk.last() == self.tokens@[i as int]);
                assert(oc[tk.len() - 1] == outcomes@[i as int]);
            }
            i = i + 1;
        }
        proof {
            assert(self.tokens@.take(self.tokens@.len() as int) =~= self.tokens@);
            assert(outcomes@.take(outcomes@.len() as int) =~= outcomes@);
        }
        r
    }
}

} // verus!
