[package]
name = "brc20_index"
version = "0.1.0"
edition = "2021"
publish = false

[dependencies]
anyhow = "1"
futures-util = "0.3"
log = "0.4"
mongodb = "2"
serde = { version = "1", features = ["derive"] }
