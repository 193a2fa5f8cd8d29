[package]
name = "memo_sync"
version = "0.1.0"
edition = "2021"
publish = false

[dependencies]
borsh = "=1.8.1"
solana-pubkey = { version = "=2.4.0", features = ["curve25519"] }
serde = { version = "=1.0.229", features = ["derive"] }
serde_json = "=1.0.154"
redis = { version = "=1.8.1", features = ["tokio-comp", "aio"] }
tokio = { version = "=1.54.1", features = ["full"] }
futures = "=0.3.34"
pin-project = "=1.1.13"
tokio-stream = "=0.1.19"
anyhow = "=1.0.104"
tracing = "=0.1.44"
dotenvy = "=0.15.7"
shellexpand = "=3.1.2"
crossbeam-channel = "=0.5.17"
anchor-lang = "0.31"
ratatui = "0.30"
crossterm = "0.29"

[dev-dependencies]
sha2 = "=0.10.9"
