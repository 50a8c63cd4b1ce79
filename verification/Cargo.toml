[package]
name = "rpc_ext"
version = "0.1.0"
edition = "2021"
publish = false

[dependencies]
alloy-primitives = { version = "=1.7.3", features = ["k256"] }
alloy-consensus = { version = "=1.8.3", features = ["k256"] }
alloy-eips = "=1.8.3"
alloy-evm = { version = "=0.39.0", default-features = false }
alloy-hardforks = "=0.4.11"
alloy-rpc-types-eth = "=1.8.3"
alloy-rpc-types-trace = "=1.8.3"
k256 = { version = "=0.13.4", default-features = false, features = ["ecdsa", "arithmetic", "std"] }
serde = { version = "=1.0.229", features = ["derive"] }
serde_json = "=1.0.154"
tokio = { version = "=1.54.1", features = ["rt", "macros"] }
futures = "=0.3.34"
jsonrpsee-types = "=0.26.1"
jsonrpsee = { version = "0.26", default-features = false, features = ["macros", "server-core"] }
alloy-network = "=1.8.3"
async-trait = "=0.1.92"
tracing = "=0.1.44"
