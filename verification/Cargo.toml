[package]
name = "cni_multi"
version = "0.1.0"
edition = "2021"
publish = false

[dependencies]
serde = { version = "*", features = ["derive"] }
serde_json = "*"
cidr = "*"
anyhow = "*"
log = "*"
log4rs = "*"
