[package]
name = "verifiable_api"
version = "0.1.0"
edition = "2021"
publish = false

[dependencies]
alloy = { version = "1", default-features = false, features = ["std", "rlp", "consensus", "eips", "network", "rpc-types", "rpc-types-eth"] }
async-trait = "0.1"
eyre = "0.6"
futures = "0.3"
url = "2"
