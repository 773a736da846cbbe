//! Chain descriptors as found in chain-list configuration documents,
//! and the RPC-endpoint selection policy that turns a descriptor into
//! a per-chain client.

use vstd::prelude::*;
use vstd::string::*;
use crate::client::EvmChainClient;
use crate::error::ClientError;
use crate::token::TokenMetadata;

verus! {

/// Metadata describing a chain's native currency.
#[derive(Debug)]
pub struct NativeCurrency {
    /// Full name of the native currency.
    pub name: String,
    /// Symbol of the native currency.
    pub symbol: String,
    /// Number of decimals used by the currency.
    pub decimals: u64,
}

impl Clone for NativeCurrency {
    fn clone(&self) -> (r: Self)
        ensures
            r == *self,
    {
        NativeCurrency {
            name: self.name.clone(),
            symbol: self.symbol.clone(),
            decimals: self.decimals,
        }
    }
}

/// Chain metadata, as parsed from chain-list configuration documents.
#[derive(Debug)]
pub struct ChainMetaData {
    /// Full name of the chain.
    pub name: String,
    /// Numeric chain identifier.
    pub chain_id: u64,
    /// Short name, used as the registry lookup key.
    pub short_name: String,
    /// Network identifier (sometimes differs from the chain identifier).
    pub network_id: u64,
    /// Native currency metadata.
    pub native_currency: NativeCurrency,
    /// Ordered list of candidate RPC URLs.
    pub rpc: Vec<String>,
}

/// Whether two descriptors agree on every field (candidate URL lists
/// are compared element by element).
pub open spec fn meta_like(a: &ChainMetaData, b: &ChainMetaData) -> bool {
    &&& a.name == b.name
    &&& a.chain_id == b.chain_id
    &&& a.short_name == b.short_name
    &&& a.network_id == b.network_id
    &&& a.native_currency == b.native_currency
    &&& a.rpc@ == b.rpc@
}

impl Clone for ChainMetaData {
    fn clone(&self) -> (r: Self)
        ensures
            meta_like(&r, self),
    {
        let rpc = self.rpc.clone();
        proof {
            assert(rpc@ =~= self.rpc@);
        }
        ChainMetaData {
            name: self.name.clone(),
            chain_id: self.chain_id,
            short_name: self.short_name.clone(),
            network_id: self.network_id,
            native_currency: self.native_currency.clone(),
            rpc,
        }
    }
}

/// Whether a candidate RPC URL is usable as it stands: it is a plain
/// `http(s)` URL and holds no unresolved template placeholder such as
/// `{API_KEY}`.
pub open spec fn url_ok(s: Seq<char>) -> bool {
    &&& s.len() >= 4
    &&& s[0] == 'h'
    &&& s[1] == 't'
    &&& s[2] == 't'
    &&& s[3] == 'p'
    &&& forall|i: int| 0 <= i < s.len() ==> s[i] != '{'
}

/// Whether index `i` names the first usable URL of the candidate list.
pub open spec fn first_ok(rpc: Seq<String>, i: int) -> bool {
    &&& 0 <= i < rpc.len()
    &&& url_ok(rpc[i]@)
    &&& forall|j: int| 0 <= j < i ==> !url_ok(rpc[j]@)
}

/// Whether no URL of the candidate list is usable.
pub open spec fn none_ok(rpc: Seq<String>) -> bool {
    forall|i: int| 0 <= i < rpc.len() ==> !url_ok(rpc[i]@)
}

/// Decides whether one candidate URL is usable.
fn url_qualifies(url: &String) -> (r: bool)
    ensures
        r == url_ok(url@),
{
    let s = url.as_str();
    let n = s.unicode_len();
    if n < 4 {
        return false;
    }
    if !(s.get_char(0) == 'h' && s.get_char(1) == 't' && s.get_char(2) == 't' && s.get_char(3)
        == 'p') {
        return false;
    }
    let mut i: usize = 0;
    while i < n
        invariant
            n == url@.len(),
            i <= n,
            s@ == url@,
            forall|j: int| 0 <= j < i ==> url@[j] != '{',
        decreases n - i,
    {
        if s.get_char(i) == '{' {
            return false;
        }
        i = i + 1;
    }
    true
}

/// Selects the first usable RPC URL of a candidate list, by index;
/// `None` when no candidate qualifies. Selection is deterministic and
/// order-sensitive: the first qualifying URL in original list order is
/// taken, whatever stands before or after it.
pub fn select_rpc_url_index(rpc: &Vec<String>) -> (r: Option<usize>)
    ensures
        match r {
            Some(i) => first_ok(rpc@, i as int),
            None => none_ok(rpc@),
        },
{
    let mut i: usize = 0;
    while i < rpc.len()
        invariant
            i <= rpc@.len(),
            forall|j: int| 0 <= j < i ==> !url_ok(rpc@[j]@),
        decreases rpc@.len() - i,
    {
        if url_qualifies(&rpc[i]) {
            return Some(i);
        }
        i = i + 1;
    }
    None
}

impl ChainMetaData {
    /// Builds a per-chain client from this descriptor and a
    /// block-explorer API credential, with an empty token catalog.
    ///
    /// The client's endpoint is the first usable RPC URL of the
    /// candidate list; when no candidate qualifies, construction fails
    /// with a configuration error and nothing else.
    pub fn create_rpc_client(&self, etherscan_api_key: &str) -> (r: Result<
        EvmChainClient,
        ClientError,
    >)
        ensures
            match r {
                Ok(c) => {
                    &&& exists|i: int| first_ok(self.rpc@, i) && c.rpc_url == self.rpc@[i]
                    &&& meta_like(&c.metadata, self)
                    &&& c.etherscan_api_key@ == etherscan_api_key@
                    &&& c.tokens@ =~= Seq::<TokenMetadata>::empty()
                },
                Err(e) => e.is_config() && none_ok(self.rpc@),
            },
    {
        self.create_rpc_client_with_tokens(etherscan_api_key, Vec::new())
    }

    /// Builds a per-chain client from this descriptor and a
    /// block-explorer API credential, with a pre-loaded token catalog.
    ///
    /// The endpoint selection policy is the same as for
    /// [`Self::create_rpc_client`].
    pub fn create_rpc_client_with_tokens(
        &self,
        etherscan_api_key: &str,
        tokens: Vec<TokenMetadata>,
    ) -> (r: Result<EvmChainClient, ClientError>)
        ensures
            match r {
                Ok(c) => {
                    &&& exists|i: int| first_ok(self.rpc@, i) && c.rpc_url == self.rpc@[i]
                    &&& meta_like(&c.metadata, self)
                    &&& c.etherscan_api_key@ == etherscan_api_key@
                    &&& c.tokens@ == tokens@
                },
                Err(e) => e.is_config() && none_ok(self.rpc@),
            },
    {
        match select_rpc_url_index(&self.rpc) {
            Some(i) => {
                let url = self.rpc[i].clone();
                Ok(
                    EvmChainClient::new(
                        self.clone(),
                        url,
                        String::from_str(etherscan_api_key),
                        tokens,
                    ),
                )
            },
            None => {
                let mut msg = String::from_str("no usable RPC HTTP URL for chain: ");
                msg.append(self.name.as_str());
                Err(ClientError::Config(msg))
            },
        }
    }
}

} // verus!
