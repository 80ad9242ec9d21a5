[package]
name = "jmd-linux"
version = "0.1.0"
edition = "2021"
publish = false

[dependencies]
anyhow = "1"
memmem = "0.1"
nix = { version = "*", features = ["ptrace", "process", "signal"] }
procfs = { version = "*", default-features = false }
