[package]
name = "mina_node_core"
version = "0.1.0"
edition = "2021"
publish = false

[dependencies]
bs58 = { version = "=0.5.1", features = ["check"] }
rand = "=0.10.3"
log = "=0.4.34"
env_logger = "=0.11.11"
