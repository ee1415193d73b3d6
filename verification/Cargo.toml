[package]
name = "fake-tcp"
version = "0.1.0"
edition = "2021"
publish = false

[dependencies]
bytes = "1"
flume = "*"
log = "0.4"
pnet = "*"
rand = { version = "0.9", features = ["small_rng"] }
tokio = { version = "1", features = ["full"] }
tokio-tun = "*"
