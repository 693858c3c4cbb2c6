[package]
name = "pico_ledger"
version = "0.1.0"
edition = "2021"
publish = false

[dependencies]
async-trait = "0.1"
csv = "1"
futures = "0.3"
serde = { version = "1", features = ["derive"] }
tokio = { version = "1", features = ["full"] }
