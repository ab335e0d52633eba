[package]
name = "dap"
version = "0.1.0"
edition = "2021"
publish = false

[dependencies]
anyhow = "1"
dap-types = "*"
futures = "0.3"
serde = { version = "1", features = ["derive"] }
serde_json = "1"
smol = "1.2"
