[package]
name = "clump"
version = "0.1.0"
edition = "2021"
publish = false

[dependencies]
anyhow = "1"
arboard = { version = "3", default-features = false }
chrono = "0.4"
clap = { version = "4", features = ["derive"] }
crossterm = "0.28"
dirs = "5"
glob = "0.3"
incredimo = "*"
nucleo = "0.5"
ratatui = "0.29"
ron = "0.8"
serde = { version = "1", features = ["derive"] }
walkdir = "2"
