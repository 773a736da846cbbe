use multichain_client::{
    bytes_to_hex, encode_balance_of, Address, ChainMetaData, ClientError, EvmChainClient,
    NativeCurrency, TokenMetadata, U256,
};

fn token(name: &str, symbol: &str, byte: u8, decimals: u8) -> TokenMetadata {
    TokenMetadata {
        name: name.to_string(),
        address: Address::from_array([byte; 20]),
        symbol: symbol.to_string(),
        decimals,
    }
}

fn client_with_tokens(tokens: Vec<TokenMetadata>) -> EvmChainClient {
    let meta = ChainMetaData {
        name: "Ethereum Mainnet".to_string(),
        chain_id: 1,
        short_name: "eth".to_string(),
        network_id: 1,
        native_currency: NativeCurrency {
            name: "Ether".to_string(),
            symbol: "ETH".to_string(),
            decimals: 18,
        },
        rpc: vec!["https://eth.example".to_string()],
    };
    EvmChainClient::new(meta, "https://eth.example".to_string(), "key".to_string(), tokens)
}

#[test]
fn token_sweep_filters_zero_balances() {
    let client = client_with_tokens(vec![token("USD Coin", "USDC", 0x11, 6), token(
        "Dai Stablecoin",
        "DAI",
        0x22,
        18,
    )]);
    let outcomes = vec![Some(U256::from_u64(500)), Some(U256::from_u64(0))];
    let result = client.collect_token_balances(&outcomes);
    assert_eq!(result.len(), 1);
    assert_eq!(result[0].token.symbol, "USDC");
    assert_eq!(result[0].balance, U256::from_u64(500));
}

#[test]
fn token_sweep_swallows_per_token_failures() {
    let client = client_with_tokens(vec![
        token("USD Coin", "USDC", 0x11, 6),
        token("Dai Stablecoin", "DAI", 0x22, 18),
        token("Wrapped Ether", "WETH", 0x33, 18),
    ]);
    let outcomes = vec![None, Some(U256::from_u64(7)), None];
    let result = client.collect_token_balances(&outcomes);
    assert_eq!(result.len(), 1);
    assert_eq!(result[0].token.symbol, "DAI");
    assert_eq!(result[0].balance, U256::from_u64(7));
}

#[test]
fn token_sweep_result_never_holds_a_zero_balance() {
    let client = client_with_tokens(vec![
        token("A", "A", 1, 18),
        token("B", "B", 2, 18),
        token("C", "C", 3, 18),
        token("D", "D", 4, 18),
    ]);
    let outcomes = vec![
        Some(U256::from_u64(0)),
        None,
        Some(U256::from_limbs(0, 1, 0, 0)),
        Some(U256::from_u64(0)),
    ];
    let result = client.collect_token_balances(&outcomes);
    assert!(result.iter().all(|t| !t.balance.is_zero()));
    assert_eq!(result.len(), 1);
    assert_eq!(result[0].token.symbol, "C");
}

#[test]
fn native_balance_result_keeps_the_fetched_balance() {
    let client = client_with_tokens(vec![]);
    let r = client.native_balance_result(Ok(U256::from_u64(1000)));
    assert_eq!(r.unwrap(), U256::from_u64(1000));
}

#[test]
fn native_balance_failure_becomes_a_transport_error() {
    let client = client_with_tokens(vec![]);
    let r = client.native_balance_result(Err("connection refused".to_string()));
    let err = r.err().expect("must propagate the failure");
    assert!(matches!(err, ClientError::Transport(_)));
    assert_eq!(err.message(), "connection refused");
}

#[test]
fn add_tokens_appends_without_deduplicating() {
    let mut client = client_with_tokens(vec![token("USD Coin", "USDC", 0x11, 6)]);
    client.add_tokens(vec![token("USD Coin", "USDC", 0x11, 6), token(
        "Dai Stablecoin",
        "DAI",
        0x22,
        18,
    )]);
    assert_eq!(client.tokens.len(), 3);
    assert_eq!(client.tokens[0].symbol, "USDC");
    assert_eq!(client.tokens[1].symbol, "USDC");
    assert_eq!(client.tokens[2].symbol, "DAI");
}

#[test]
fn balance_of_call_data_has_selector_padding_and_address() {
    let addr = Address::from_array([0xABu8; 20]);
    let data = encode_balance_of(&addr);
    assert_eq!(data.len(), 36);
    assert_eq!(&data[0..4], &[0x70, 0xa0, 0x82, 0x31]);
    assert_eq!(&data[4..16], &[0u8; 12]);
    assert_eq!(&data[16..36], &[0xABu8; 20]);
}

#[test]
fn bytes_render_as_lowercase_hex() {
    assert_eq!(bytes_to_hex(&[0x00, 0x0f, 0xa0, 0xff]), "000fa0ff");
    assert_eq!(bytes_to_hex(&[]), "");
}

#[test]
fn address_renders_with_0x_prefix() {
    let mut bytes = [0u8; 20];
    bytes[0] = 0x12;
    bytes[19] = 0xef;
    let addr = Address::from_array(bytes);
    assert_eq!(addr.to_hex(), "0x12000000000000000000000000000000000000ef");
}

#[test]
fn u256_zero_test_looks_at_all_limbs() {
    assert!(U256::zero().is_zero());
    assert!(U256::from_u64(0).is_zero());
    assert!(!U256::from_u64(1).is_zero());
    assert!(!U256::from_limbs(0, 0, 0, 1).is_zero());
    assert!(!U256::from_limbs(0, 1, 0, 0).is_zero());
}
