[package]
name = "goose_tui"
version = "0.1.0"
edition = "2021"
publish = false

[dependencies]
agent-client-protocol = "*"
anyhow = "1"
crossterm = "*"
ratatui = "*"
tokio = { version = "1", features = ["full"] }
tokio-util = { version = "*", features = ["compat"] }
