[package]
name = "paschek_shell"
version = "0.1.0"
edition = "2021"
publish = false

[dependencies]
ropey = { version = "*", default-features = false }
crossterm = "*"
ratatui = "*"
anyhow = "*"
chrono = "*"
owo-colors = "*"
serde = { version = "*", features = ["derive"] }
toml = "*"
home = "*"
