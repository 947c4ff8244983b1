[package]
name = "lighthouse"
version = "0.1.0"
edition = "2021"
publish = false

[dependencies]
ethereum_ssz = "=0.10.4"
ethereum_hashing = "=0.8.0"
tree_hash = "=0.12.1"
blst = "*"
serde = { version = "=1.0.229", features = ["derive"] }
serde_json = "=1.0.154"
dirs = "=7.0.0"
