//! The request and response shapes the service exposes around the
//! aggregation core, and the small decisions behind them: query
//! parameter defaults and the chain listing.

use vstd::prelude::*;
use vstd::string::*;
use crate::primitives::{Address, U256};
use crate::registry::EvmClientRegistry;
use crate::token::TokenBalance;

verus! {

/// One row of the chain listing: a chain's registry key and its
/// display name.
#[derive(Debug)]
pub struct ChainInfo {
    /// The chain's registry key.
    pub short_name: String,
    /// The chain's full name.
    pub name: String,
}

/// The chain listing: one row per registered chain, in registry
/// order, pairing the registry key with the chain's display name.
pub fn chain_infos(registry: &EvmClientRegistry) -> (r: Vec<ChainInfo>)
    ensures
        r@.len() == registry.clients@.len(),
        forall|i: int|
            0 <= i < r@.len() ==> (#[trigger] r@[i]).short_name == registry.clients@[i]
                .metadata.short_name && r@[i].name == registry.clients@[i].metadata.name,
{
    let mut r: Vec<ChainInfo> = Vec::new();
    let mut i: usize = 0;
    while i < registry.clients.len()
        invariant
            i <= registry.clients@.len(),
            r@.len() == i,
            forall|j: int|
                0 <= j < i ==> (#[trigger] r@[j]).short_name == registry.clients@[j]
                    .metadata.short_name && r@[j].name == registry.clients@[j].metadata.name,
        decreases registry.clients@.len() - i,
    {
        r.push(
            ChainInfo {
                short_name: registry.clients[i].metadata.short_name.clone(),
                name: registry.clients[i].metadata.name.clone(),
            },
        );
        i = i + 1;
    }
    r
}

/// A wallet's native balance on one chain.
#[derive(Debug)]
pub struct WalletBalanceResponse {
    /// The queried address.
    pub address: Address,
    /// Its native balance.
    pub balance: U256,
}

/// A wallet summary on one chain: the native balance and the nonzero
/// token balances of one address.
#[derive(Debug)]
pub struct WalletSummary {
    /// The queried address.
    pub address: Address,
    /// Its native balance.
    pub native_balance: U256,
    /// Its nonzero token balances.
    pub tokens: Vec<TokenBalance>,
}

/// Pagination parameters of a transaction-history request, both
/// optional.
#[derive(Debug, Clone, Copy)]
pub struct TxQuery {
    /// The requested page.
    pub page: Option<u64>,
    /// The requested page size.
    pub offset: Option<u64>,
}

impl TxQuery {
    /// The page actually served: the requested one, or the first.
    pub fn page_or_default(&self) -> (r: u64)
        ensures
            r == match self.page {
                Some(p) => p,
                None => 1u64,
            },
    {
        self.page.unwrap_or(1)
    }

    /// The page size actually served: the requested one, or ten
    /// items.
    pub fn offset_or_default(&self) -> (r: u64)
        ensures
            r == match self.offset {
                Some(o) => o,
                None => 10u64,
            },
    {
        self.offset.unwrap_or(10)
    }
}

/// Command-line configuration: where the token lists and the chain
/// list live.
#[derive(Debug)]
pub struct Cli {
    /// Directory holding the per-chain token list files.
    pub token_folder: String,
    /// Path of the chain list document.
    pub chains: String,
}

impl Default for Cli {
    /// The conventional configuration layout.
    fn default() -> (r: Self)
        ensures
            r.token_folder@ == "config/"@,
            r.chains@ == "config/chains.json"@,
    {
        Cli {
            token_folder: String::from_str("config/"),
            chains: String::from_str("config/chains.json"),
        }
    }
}

} // verus!
