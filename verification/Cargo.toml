[package]
name = "revi"
version = "0.1.0"
edition = "2021"
publish = false

[dependencies]
ropey = { version = "1.6", default-features = false, features = ["simd"] }
crossterm = "0.27"
ratatui = "0.26"
rhai = "1"
clap = { version = "4", features = ["derive", "cargo"] }
anyhow = "1"
