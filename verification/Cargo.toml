[package]
name = "greenboot"
version = "0.1.0"
edition = "2021"
publish = false

[dependencies]
anyhow = "1"
clap = { version = "4", features = ["derive"] }
config = { version = "*", default-features = false, features = ["ini"] }
glob = "0.3"
log = "0.4"
nix = { version = "*", features = ["mount"] }
pretty_env_logger = "*"
serde = { version = "1", features = ["derive"] }
thiserror = "*"
