[package]
name = "phos_remoting"
version = "0.1.0"
edition = "2021"
publish = false

[dependencies]
serde = { version = "1", features = ["derive"] }
toml = "*"
log = "0.4"
env_logger = "*"
libc = "0.2"
anyhow = "1"
clap = "3"
tokio = { version = "1", features = ["full"] }
tarpc = { version = "*", features = ["full"] }
rust-criu = "*"
