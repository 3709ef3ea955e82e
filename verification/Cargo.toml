[package]
name = "telos"
version = "0.1.0"
edition = "2021"
publish = false

[dependencies]
alloy = { version = "1.8", default-features = false, features = ["std", "eips", "network", "rpc-types", "signer-local", "sol-types"] }
eyre = "0.6"
futures-util = { version = "0.3", default-features = false }
jsonrpsee = { version = "0.26", default-features = false, features = ["server", "macros"] }
revm = "38"
serde = { version = "1", features = ["derive"] }
serde_json = "1"
tokio = { version = "1", features = ["macros", "rt-multi-thread", "sync"] }
tracing = "0.1"
tracing-subscriber = { version = "0.3", default-features = false, features = ["fmt", "env-filter"] }
