[package]
name = "hyprnote"
version = "0.1.0"
edition = "2021"
publish = false

[dependencies]
uuid = "1"
crossterm = "0.28"
ratatui = "0.29"
tui-textarea = "0.7"
strsim = "0.11"
serde = { version = "1", features = ["derive"] }
serde_json = "1"
chrono = "0.4"
tracing = "0.1"
tracing-subscriber = { version = "0.3", features = ["env-filter"] }
colored = "2"
comfy-table = "7"
