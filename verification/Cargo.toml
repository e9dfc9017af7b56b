[package]
name = "miden-tx-advice"
version = "0.1.0"
edition = "2021"
publish = false

[dependencies]
miden-core = "=0.22.4"
miden-crypto = "=0.23.0"
miden-processor = "=0.22.4"
