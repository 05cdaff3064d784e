[package]
name = "tabv"
version = "0.1.0"
edition = "2021"
publish = false

[dependencies]
rapidfuzz = "*"
unicode-width = "*"
ratatui = "*"
clap = { version = "*", features = ["derive"] }
color-eyre = "*"
csv = "*"
fs-err = "*"
glob = "*"
