[package]
name = "clnaddress"
version = "0.1.0"
edition = "2021"
publish = false

[dependencies]
anyhow = "1"
axum = "0.8"
bech32 = "0.11"
cln-plugin = "*"
cln-rpc = "*"
log = "0.4"
nostr-sdk = "*"
parking_lot = "0.12"
serde = { version = "1", features = ["derive"] }
serde_json = "1"
tokio = { version = "1", features = ["rt-multi-thread", "macros", "net", "fs", "io-std", "io-util", "sync", "time"] }
url = "2"
uuid = { version = "1", features = ["v4"] }
