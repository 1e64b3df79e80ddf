[package]
name = "walletd_blockstream"
version = "0.1.0"
edition = "2021"
publish = false

[dependencies]
hex = "=0.4.3"
bitcoin_hashes = "=0.12.0"
time = { version = "=0.3.55", features = ["formatting"] }
base58 = "=0.2.0"
serde = { version = "=1.0.229", features = ["derive"] }
serde_json = "=1.0.154"
reqwest = { version = "=0.11.27", default-features = false, features = ["blocking", "json"] }
prettytable-rs = { version = "=0.10.0", default-features = false }
log = "=0.4.35"
bitcoin = { version = "0.30", default-features = false, features = ["std"] }
