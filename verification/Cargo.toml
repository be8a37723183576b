[package]
name = "alpamayo"
version = "0.1.0"
edition = "2021"
publish = false

[dependencies]
anyhow = "=1.0.104"
clap = { version = "=4.6.7", features = ["derive"] }
crossbeam = "=0.8.5"
futures = "=0.3.34"
jsonrpsee-types = "=0.26.1"
metrics = "=0.24.6"
quanta = "=0.12.6"
richat-metrics = "=1.0.1"
richat-shared = { version = "=9.0.0", default-features = false, features = ["jsonrpc"] }
rocksdb = { version = "0.24", default-features = false, features = ["bindgen-runtime"] }
serde = { version = "=1.0.229", features = ["derive"] }
serde_json = "=1.0.154"
solana-clock = "=3.1.0"
solana-commitment-config = "=3.1.1"
solana-epoch-rewards-hasher = "=3.1.0"
solana-epoch-schedule = "=3.0.0"
solana-hash = "=4.2.0"
solana-pubkey = "=4.1.0"
solana-rpc-client-api = "=4.0.0"
solana-signature = "=3.3.0"
solana-transaction = "=4.0.0"
solana-transaction-status-client-types = "=4.0.0"
solana-version = "=4.0.0"
thiserror = "=2.0.21"
tokio = { version = "=1.54.1", features = ["macros", "rt-multi-thread", "sync", "time"] }
tokio-util = "=0.7.20"
tracing = "=0.1.44"
