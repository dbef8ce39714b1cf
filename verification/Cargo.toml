[package]
name = "dcode"
version = "0.2.1"
edition = "2021"
publish = false

[dependencies]
sha2 = "0.10"
dirs = "6"
serde = { version = "1", features = ["derive"] }
serde_json = "1"
crossterm = "0.28"
ratatui = "0.29"
