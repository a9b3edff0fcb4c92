[package]
name = "redb_browser"
version = "0.1.0"
edition = "2021"
publish = false

[dependencies]
redb = "*"
clap = { version = "*", features = ["derive"] }
crossterm = "*"
human-repr = "*"
log = "*"
ratatui = "*"
simplelog = "*"
thiserror = "*"
