[package]
name = "agent_host"
version = "0.1.0"
edition = "2021"
publish = false

[dependencies]
regex = "1"
uuid = { version = "1", features = ["v4"] }
anyhow = "1"
serde = { version = "1", features = ["derive"] }
serde_json = "1"
toml = "0.8"
dirs = "5"
rusqlite = { version = "0.31", features = ["bundled"] }
reqwest = { version = "0.12", features = ["json"] }
tokio = { version = "1", features = ["full"] }
mlua = { version = "0.9", features = ["lua54", "vendored", "async"] }
ratatui = "0.26"
crossterm = "0.27"
lazy_static = "1.5"
