use multichain_client::{build_clients, ChainMetaData, Cli, ClientError, NativeCurrency};

fn currency(name: &str, symbol: &str, decimals: u64) -> NativeCurrency {
    NativeCurrency {
        name: name.to_string(),
        symbol: symbol.to_string(),
        decimals,
    }
}

fn descriptor(name: &str, chain_id: u64, short_name: &str, rpc: Vec<&str>) -> ChainMetaData {
    ChainMetaData {
        name: name.to_string(),
        chain_id,
        short_name: short_name.to_string(),
        network_id: chain_id,
        native_currency: currency("Ether", "ETH", 18),
        rpc: rpc.into_iter().map(|s| s.to_string()).collect(),
    }
}

#[test]
fn first_qualifying_url_wins() {
    let meta = descriptor(
        "Ethereum Mainnet",
        1,
        "eth",
        vec![
            "wss://node.example",
            "https://rpc.example/{API_KEY}",
            "https://first-good.example",
            "https://second-good.example",
        ],
    );
    let client = meta.create_rpc_client("key").expect("a usable URL exists");
    assert_eq!(client.rpc_url, "https://first-good.example");
    assert_eq!(client.metadata.short_name, "eth");
    assert_eq!(client.etherscan_api_key, "key");
    assert!(client.tokens.is_empty());
}

#[test]
fn plain_http_url_qualifies() {
    let meta = descriptor("Ethereum Mainnet", 1, "eth", vec!["http://localhost:8545"]);
    let client = meta.create_rpc_client("key").expect("http qualifies");
    assert_eq!(client.rpc_url, "http://localhost:8545");
}

#[test]
fn templated_and_non_http_urls_never_qualify() {
    let meta = descriptor(
        "Ethereum Mainnet",
        1,
        "eth",
        vec!["wss://node.example", "https://rpc.example/{API_KEY}"],
    );
    let err = meta.create_rpc_client("key").err().expect("no usable URL");
    assert!(matches!(err, ClientError::Config(_)));
}

#[test]
fn empty_candidate_list_is_a_config_error() {
    let meta = descriptor("Ethereum Mainnet", 1, "eth", vec![]);
    let err = meta.create_rpc_client("key").err().expect("no URL at all");
    assert!(matches!(err, ClientError::Config(_)));
    assert!(err.message().contains("Ethereum Mainnet"));
}

#[test]
fn unusable_descriptor_is_skipped_not_fatal() {
    let chains = vec![
        descriptor("Ethereum Mainnet", 1, "eth", vec!["https://eth.example"]),
        descriptor("Broken Chain", 999, "bad", vec!["wss://only-sockets.example"]),
        descriptor("Polygon", 137, "poly", vec!["https://poly.example"]),
    ];
    let clients = build_clients(&chains, "key");
    assert_eq!(clients.len(), 2);
    assert_eq!(clients[0].metadata.short_name, "eth");
    assert_eq!(clients[1].metadata.short_name, "poly");
    assert!(clients.iter().all(|c| c.metadata.short_name != "bad"));
}

#[test]
fn selection_returns_the_first_qualifying_index() {
    let rpc: Vec<String> = vec![
        "wss://node.example".to_string(),
        "https://rpc.example/{API_KEY}".to_string(),
        "https://first-good.example".to_string(),
        "http://second-good.example".to_string(),
    ];
    assert_eq!(multichain_client::select_rpc_url_index(&rpc), Some(2));

    let none: Vec<String> = vec![];
    assert_eq!(multichain_client::select_rpc_url_index(&none), None);
}

#[test]
fn cli_defaults_name_the_conventional_layout() {
    let cli = Cli::default();
    assert_eq!(cli.token_folder, "config/");
    assert_eq!(cli.chains, "config/chains.json");
}
