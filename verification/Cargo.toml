[package]
name = "kasplex"
version = "0.1.0"
edition = "2021"
publish = false

[dependencies]
alloy-primitives = { version = "=0.7.7", features = ["serde"] }
alloy-rlp = "=0.3.17"
alloy-eips = { version = "=0.2.1", default-features = false, features = ["std", "serde"] }
sha2 = "=0.10.9"
parking_lot = "=0.12.5"
serde = { version = "=1.0.229", features = ["derive"] }
jsonrpsee = { version = "=0.24.11", features = ["server", "macros"] }
async-trait = "=0.1.92"
tracing = "=0.1.44"
