[package]
name = "dune_codex"
version = "0.1.0"
edition = "2021"
publish = false

[dependencies]
anyhow = "1"
clap = { version = "4", features = ["derive"] }
crossterm = "*"
dirs = "*"
ratatui = "*"
rusqlite = "*"
serde = { version = "1", features = ["derive"] }
serde_json = "1"
shellexpand = "*"
thiserror = "*"
toml = "*"
tracing = "*"
tracing-subscriber = { version = "*", features = ["env-filter"] }
ureq = { version = "*", features = ["json"] }
