[package]
name = "binah_bot"
version = "0.1.0"
edition = "2021"
publish = false

[dependencies]
unicode-normalization = "0.1"
xxhash-rust = { version = "0.8", features = ["xxh3"] }
hex = "0.4"
ed25519-dalek = "2"
unic-langid = "0.9"
serde = { version = "1", features = ["derive"] }
serde_json = "1"
