[package]
name = "op_succinct_host_utils"
version = "0.1.0"
edition = "2021"
publish = false

[dependencies]
alloy-primitives = "0.8"
alloy-sol-types = "0.8"
alloy = { version = "0.4", default-features = false, features = ["std", "eips", "provider-http", "rpc-types", "reqwest"] }
alloy-consensus = "0.4"
op-alloy-genesis = "0.4"
cargo_metadata = "0.18"
futures = "0.3"
tokio = { version = "1", features = ["rt-multi-thread", "time"] }
reqwest = { version = "0.12", default-features = false, features = ["json"] }
serde = "1"
serde_json = "1"
anyhow = "1"
