[package]
name = "world_migration"
version = "0.1.0"
edition = "2021"
publish = false

[dependencies]
anyhow = "=1.0.104"
cainome = "=0.10.1"
spinoff = "=0.8.0"
starknet = "=0.17.0"
starknet-crypto = "=0.8.1"
starknet-types-core = "=0.2.4"
tracing = "=0.1.44"
