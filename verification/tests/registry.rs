use multichain_client::{
    chain_infos, Address, ChainMetaData, ClientError, EvmChainClient, EvmClientRegistry,
    NativeCurrency, TokenMetadata, U256,
};

fn client(short_name: &str, name: &str, url: &str, tokens: Vec<TokenMetadata>) -> EvmChainClient {
    let meta = ChainMetaData {
        name: name.to_string(),
        chain_id: 1,
        short_name: short_name.to_string(),
        network_id: 1,
        native_currency: NativeCurrency {
            name: "Ether".to_string(),
            symbol: "ETH".to_string(),
            decimals: 18,
        },
        rpc: vec![url.to_string()],
    };
    EvmChainClient::new(meta, url.to_string(), "key".to_string(), tokens)
}

fn token(symbol: &str, byte: u8) -> TokenMetadata {
    TokenMetadata {
        name: symbol.to_string(),
        address: Address::from_array([byte; 20]),
        symbol: symbol.to_string(),
        decimals: 18,
    }
}

fn two_chain_registry() -> EvmClientRegistry {
    EvmClientRegistry::new(vec![
        client("eth", "Ethereum Mainnet", "https://eth.example", vec![]),
        client("poly", "Polygon", "https://poly.example", vec![]),
    ])
}

#[test]
fn one_failing_chain_reports_zero_and_fails_nothing() {
    // chains {"eth", "poly"}: eth fetches 1000, poly's transport errors
    let registry = two_chain_registry();
    let outcomes = vec![Some(U256::from_u64(1000)), None];
    let merged = registry.merge_native_balances(&outcomes);
    assert_eq!(merged.len(), 2);
    assert_eq!(merged[0].0, "eth");
    assert_eq!(merged[0].1, U256::from_u64(1000));
    assert_eq!(merged[1].0, "poly");
    assert_eq!(merged[1].1, U256::zero());
}

#[test]
fn same_outcomes_merge_to_identical_maps() {
    let registry = two_chain_registry();
    let outcomes = vec![Some(U256::from_u64(1000)), Some(U256::from_u64(250))];
    let first = registry.merge_native_balances(&outcomes);
    let second = registry.merge_native_balances(&outcomes);
    assert_eq!(first.len(), second.len());
    for (a, b) in first.iter().zip(second.iter()) {
        assert_eq!(a.0, b.0);
        assert_eq!(a.1, b.1);
    }
}

#[test]
fn token_fan_out_skips_chains_without_tokens() {
    let registry = EvmClientRegistry::new(vec![
        client("eth", "Ethereum Mainnet", "https://eth.example", vec![token("USDC", 0x11)]),
        client("poly", "Polygon", "https://poly.example", vec![]),
        client("arb", "Arbitrum", "https://arb.example", vec![token("ARB", 0x22)]),
    ]);
    let indices = registry.token_query_indices();
    assert_eq!(indices, vec![0, 2]);

    // the per-chain sweeps of the dispatched chains, already merged
    let sweeps = vec![
        registry.inner()[0].collect_token_balances(&vec![Some(U256::from_u64(500))]),
        registry.inner()[2].collect_token_balances(&vec![Some(U256::from_u64(0))]),
    ];
    let labelled = registry.label_results(&indices, sweeps);
    assert_eq!(labelled.len(), 2);
    assert_eq!(labelled[0].0, "eth");
    assert_eq!(labelled[0].1.len(), 1);
    assert_eq!(labelled[0].1[0].token.symbol, "USDC");
    assert_eq!(labelled[0].1[0].balance, U256::from_u64(500));
    assert_eq!(labelled[1].0, "arb");
    assert!(labelled[1].1.is_empty());
}

#[test]
fn failing_chain_yields_an_empty_transaction_list() {
    let registry = two_chain_registry();
    let outcomes: Vec<Option<Vec<u64>>> = vec![Some(vec![7, 6, 5]), None];
    let merged = registry.merge_transactions(outcomes);
    assert_eq!(merged.len(), 2);
    assert_eq!(merged[0].0, "eth");
    assert_eq!(merged[0].1, vec![7, 6, 5]);
    assert_eq!(merged[1].0, "poly");
    assert!(merged[1].1.is_empty());
}

#[test]
fn lookup_hits_and_misses() {
    let registry = two_chain_registry();
    assert!(registry.get("eth").is_some());
    assert!(registry.get("sol").is_none());

    let found = registry.lookup("poly").expect("registered");
    assert_eq!(found.metadata.name, "Polygon");

    let err = registry.lookup("sol").err().expect("not registered");
    assert!(matches!(err, ClientError::NotFound(_)));
    assert!(err.message().contains("sol"));
}

#[test]
fn later_client_with_same_key_replaces_earlier() {
    let registry = EvmClientRegistry::new(vec![
        client("eth", "Old Ethereum", "https://old.example", vec![]),
        client("poly", "Polygon", "https://poly.example", vec![]),
        client("eth", "New Ethereum", "https://new.example", vec![]),
    ]);
    assert_eq!(registry.len(), 2);
    let eth = registry.get("eth").expect("still registered");
    assert_eq!(eth.metadata.name, "New Ethereum");
    assert_eq!(eth.rpc_url, "https://new.example");
}

#[test]
fn chain_listing_pairs_key_with_name() {
    let registry = two_chain_registry();
    let infos = chain_infos(&registry);
    assert_eq!(infos.len(), 2);
    assert_eq!(infos[0].short_name, "eth");
    assert_eq!(infos[0].name, "Ethereum Mainnet");
    assert_eq!(infos[1].short_name, "poly");
    assert_eq!(infos[1].name, "Polygon");
}
