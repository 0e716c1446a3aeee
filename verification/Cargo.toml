[package]
name = "rlsh"
version = "0.1.0"
edition = "2021"
publish = false

[dependencies]
dirs = "=7.0.0"
rand = "=0.10.3"
rmp-serde = "=1.3.1"
serde = { version = "=1.0.229", features = ["derive"] }
tokio = { version = "=1.54.1", features = ["process", "rt", "rt-multi-thread", "macros", "io-util"] }
whoami = "=1.6.1"
