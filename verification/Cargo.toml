[package]
name = "witness"
version = "0.1.0"
edition = "2021"
publish = false

[dependencies]
hex = "0.4"
sha2 = "0.10"
ed25519-dalek = "2"
blst = "0.3"
rand = "0.8"
serde = { version = "1", features = ["derive"] }
serde_json = "1"
