[package]
name = "solana_escrow"
version = "0.1.0"
edition = "2021"
publish = false

[dependencies]
anchor-lang = "=1.2.1"
anchor-spl = "=1.2.1"
solana-sha256-hasher = { version = "*", features = ["sha2"] }
