[package]
name = "multichain_client"
version = "0.1.0"
edition = "2021"
publish = false

[dependencies]
alloy-chains = "=0.2.39"
alloy-primitives = "=1.7.3"
foundry-block-explorers = "=0.24.0"
futures = "=0.3.34"
reqwest = { version = "=0.13.5", default-features = false, features = ["rustls", "json"] }
serde = { version = "=1.0.229", features = ["derive"] }
serde_json = "=1.0.151"
tokio = { version = "=1.53.2", features = ["macros", "rt-multi-thread"] }
tracing = "=0.1.44"
