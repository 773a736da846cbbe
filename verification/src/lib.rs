//! Multi-chain wallet data aggregation core.
//!
//! This library holds the verified logic of a service that aggregates
//! wallet data (native currency balance, token balances, transaction
//! history) for one address across any number of independently
//! configured blockchain networks: RPC endpoint selection, client and
//! registry construction, the fixed `balanceOf` contract-call encoding,
//! the zero-balance filter for token sweeps, the over-fetch-by-one
//! pagination policy, and the fan-out merges that tolerate partial
//! failure of any subset of chains.
//!
//! Network transports themselves (JSON-RPC over HTTP, block-explorer
//! queries) are asynchronous I/O and live outside the library; they
//! hand their outcomes to the verified merge functions as plain values.

mod abi;
mod api;
mod chain;
mod client;
mod error;
mod hexfmt;
mod pagination;
mod primitives;
mod registry;
mod token;

pub use abi::encode_balance_of;
pub use api::{chain_infos, ChainInfo, Cli, TxQuery, WalletBalanceResponse, WalletSummary};
pub use chain::{select_rpc_url_index, ChainMetaData, NativeCurrency};
pub use client::EvmChainClient;
pub use error::ClientError;
pub use hexfmt::bytes_to_hex;
pub use pagination::{next_page, over_fetch_params, trim_page, SortOrder, TxListParams};
pub use primitives::{Address, U256};
pub use registry::{build_clients, EvmClientRegistry};
pub use token::{TokenBalance, TokenMetadata};
