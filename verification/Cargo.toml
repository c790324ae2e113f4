[package]
name = "btpc_quantum_resistant_chain"
version = "0.1.0"
edition = "2021"
publish = false

[dependencies]
sha2 = "0.10"
hex = "0.4"
ed25519-dalek = "2"
blake3 = { version = "1", default-features = false, features = ["pure"] }
serde = { version = "1", features = ["derive"] }
bincode = "1"
tokio = { version = "1", features = ["macros", "rt-multi-thread", "time", "signal"] }
log = "0.4"
toml = "0.8"
dirs = "5"
thiserror = "1"
