[package]
name = "rs_utils"
version = "0.1.0"
edition = "2021"
publish = false

[dependencies]
clap = { version = "4", features = ["derive"] }
env_logger = "0.11"
log = { version = "0.4", features = ["kv", "kv_serde", "kv_std"] }
rand = "=0.6.5"
serde_json = "1"
simplelog = "0.12"
