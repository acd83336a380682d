[package]
name = "chaosnexus_codex"
version = "0.1.0"
edition = "2021"
publish = false

[dependencies]
serde = { version = "1", features = ["derive"] }
serde_json = "1"
toml = "*"
directories = "*"
walkdir = "2"
tokio = { version = "1", features = ["full"] }
clap = "4"
tracing = "0.1"
tracing-subscriber = { version = "0.3", features = ["env-filter"] }
async-trait = "0.1"
rust-mcp-sdk = "*"
rust-mcp-transport = "*"
rust-mcp-axum = "*"
