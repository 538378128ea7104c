[package]
name = "motu_mk5"
version = "0.5.1"
edition = "2021"
publish = false

[dependencies]
serde_json = "1"
serde = { version = "1", features = ["derive"] }
anyhow = "1"
log = "0.4"
env_logger = "*"
clap = { version = "4", features = ["derive"] }
nix = { version = "*", features = ["signal"] }
socket2 = "*"
tungstenite = "*"
