[package]
name = "coding_agent_search"
version = "0.1.0"
edition = "2021"
publish = false

[dependencies]
chrono = { version = "0.4", default-features = false, features = ["std"] }
ratatui = "0.29"
rusqlite = { version = "0.32", features = ["bundled"] }
serde_json = "1"
