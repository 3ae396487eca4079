[package]
name = "kforward"
version = "0.1.0"
edition = "2021"
publish = false

[dependencies]
crossterm = "0.27"
dirs = "5"
ratatui = "0.26"
serde = { version = "1", features = ["derive"] }
serde_yml = "*"
tokio = { version = "1", features = ["rt-multi-thread", "macros"] }
