[package]
name = "layout_dag"
version = "0.1.0"
edition = "2021"
publish = false

[dependencies]
daggy = "*"
petgraph = "*"
eyre = "*"
log = "*"
env_logger = "*"
serde = { version = "*", features = ["derive"] }
serde_json = "*"
