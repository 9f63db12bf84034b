[package]
name = "nav"
version = "0.1.0"
edition = "2021"
publish = false

[dependencies]
anyhow = "*"
clap = { version = "*", features = ["cargo"] }
color-eyre = "*"
crossterm = "0.27"
ratatui = "0.26"
rustyline = "*"
serde = "*"
serde_derive = "*"
toml = "*"
