[package]
name = "portfwd"
version = "0.1.0"
edition = "2021"
publish = false

[dependencies]
rand = "=0.8.8"
smoltcp = "=0.14.0"
nix = { version = "=0.31.3", features = ["poll"] }
anyhow = "=1.0.104"
log = "=0.4.34"
env_logger = "=0.11.11"
clap = "=4.6.7"
