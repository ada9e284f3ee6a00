[package]
name = "ledger_tx"
version = "0.1.0"
edition = "2021"
publish = false

[dependencies]
bs58 = "=0.4.0"
solana-program = "=1.18.26"
solana-sdk = "=1.18.26"
