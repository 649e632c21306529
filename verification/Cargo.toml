[package]
name = "gemma_rust_mcp"
version = "0.1.0"
edition = "2021"
publish = false

[dependencies]
anyhow = "1"
clap = { version = "4", features = ["derive", "env"] }
rmcp = { version = "*", features = ["client", "transport-child-process"] }
rustyline = "*"
serde = "1"
serde_json = "1"
tokio = { version = "1", features = ["full"] }
