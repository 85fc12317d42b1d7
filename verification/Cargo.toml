[package]
name = "recur64"
version = "0.1.0"
edition = "2021"
publish = false

[dependencies]
crc32fast = "1"
sha2 = "0.10"
serde = { version = "1", features = ["derive"] }
serde_json = "1"
bincode = { version = "2", features = ["serde"] }
toml = "0.8"
anyhow = "1"
ctrlc = "3"
