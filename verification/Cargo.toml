[package]
name = "alloy-reth"
version = "0.2.0"
edition = "2021"
publish = false

[dependencies]
alloy-primitives = { version = "*", features = ["serde"] }
alloy-eips = { version = "*", features = ["serde"] }
alloy-rpc-types-engine = { version = "*", features = ["serde"] }
alloy-network = "*"
alloy-provider = { version = "*", default-features = false }
alloy-transport = "*"
async-trait = "*"
serde = { version = "1", features = ["derive"] }
serde_json = "1"
