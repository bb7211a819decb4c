[package]
name = "chain_witness"
version = "0.1.0"
edition = "2021"
publish = false

[dependencies]
blake2 = "*"
secp256k1 = { version = "*", features = ["recovery"] }
serde = { version = "*", features = ["derive"] }
sha3 = "*"
