[package]
name = "keri"
version = "0.1.0"
edition = "2021"
publish = false

[dependencies]
base64 = "0.13"
blake2 = "0.10"
blake3 = { version = "1", features = ["pure"] }
chrono = { version = "0.4", default-features = false, features = ["std", "serde"] }
serde = { version = "1", features = ["derive"] }
sha2 = "0.10"
sha3 = "0.10"
