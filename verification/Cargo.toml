[package]
name = "atlasfetch"
version = "0.1.0"
edition = "2021"
publish = false

[dependencies]
unicode-width = "*"
regex = "*"
crossterm = "*"
ratatui = "*"
serde = { version = "*", features = ["derive"] }
serde_json = "*"
clap = { version = "*", features = ["derive"] }
color-eyre = "*"
libc = "*"
