[package]
name = "fdsearch"
version = "0.1.0"
edition = "2021"
publish = false

[dependencies]
chrono = "*"
humantime = "*"
nix = { version = "*", features = ["hostname", "signal"] }
clap = { version = "*", features = ["derive"] }
ignore = "*"
lscolors = { version = "*", features = ["nu-ansi-term"] }
nu-ansi-term = "*"
faccess = "*"
normpath = "*"
regex-syntax = "*"
