[package]
name = "paccat"
version = "0.1.0"
edition = "2021"
publish = false

[dependencies]
regex = "*"
anyhow = "*"
clap = { version = "*", features = ["derive"] }
nix = { version = "*", features = ["fs", "user"] }
pacmanconf = "*"
alpm = "*"
alpm-utils = "*"
compress-tools = "*"
