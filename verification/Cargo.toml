[package]
name = "funder"
version = "0.1.0"
edition = "2021"
publish = false

[dependencies]
byteorder = "1"
sha2 = "0.10"
ed25519-dalek = "2"
bytes = "1"
futures = "0.3"
serde = { version = "1", features = ["derive"] }
