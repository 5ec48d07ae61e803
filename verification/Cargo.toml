[package]
name = "standard_broadcast"
version = "0.1.0"
edition = "2021"
publish = false

[dependencies]
solana-sdk = "=1.7.17"
solana-measure = "=1.7.17"
solana-metrics = "=1.7.17"
log = "0.4"
