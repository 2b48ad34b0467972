[package]
name = "remote_explorer"
version = "0.1.0"
edition = "2021"
publish = false

[dependencies]
async-ssh2-tokio = "=0.12.2"
lazy_static = "=1.5.1"
russh-sftp = "=2.1.1"
serde = { version = "=1.0.229", features = ["derive"] }
tokio = { version = "=1.54.1", features = ["sync", "time", "rt"] }
uuid = { version = "=1.29.0", features = ["v4"] }
