[package]
name = "pow_ledger"
version = "0.1.0"
edition = "2021"
publish = false

[dependencies]
chrono = "0.4"
crossterm = "*"
rand = "0.6"
secp256k1 = { version = "0.20", features = ["rand", "bitcoin_hashes"] }
sha2 = "0.9"
