[package]
name = "crashview"
version = "0.1.0"
edition = "2021"
publish = false

[dependencies]
anyhow = "1"
clap = { version = "3", features = ["derive"] }
cli-clipboard = "0.4"
crossterm = "0.25"
tui = "0.19"
