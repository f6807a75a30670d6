[package]
name = "bxwrp"
version = "0.1.0"
edition = "2021"
publish = false

[dependencies]
anyhow = "1"
bashkit = "*"
rmcp = { version = "*", features = ["server", "macros", "transport-io"] }
schemars = "1"
serde = { version = "1", features = ["derive"] }
serde_json = "1"
