[package]
name = "barter_data"
version = "0.1.0"
edition = "2021"
publish = false

[dependencies]
crc32fast = "1"
serde_json = "1"
url = "2"
chrono = { version = "0.4", features = ["serde"] }
rust_decimal = "1"
serde = { version = "1", features = ["derive"] }
barter-integration = "0.5"
barter-macro = "0.1"
tokio = { version = "1", features = ["sync"] }
async-trait = "0.1"
