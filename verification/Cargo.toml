[package]
name = "chain_reducers"
version = "0.1.0"
edition = "2021"
publish = false

[dependencies]
bech32 = "0.9"
blake2 = "0.10"
notify = "6"
redis = "0.25"

[dev-dependencies]
hex = "0.4"
