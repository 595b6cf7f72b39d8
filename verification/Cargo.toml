[package]
name = "mini_raft_rs"
version = "0.1.0"
edition = "2021"
publish = false

[dependencies]
uuid = { version = "1", features = ["v4"] }
rand = "0.9"
tokio = { version = "1", features = ["full"] }
tokio-util = "0.7"
anyhow = "1"
thiserror = "2"
chrono = "0.4"
async-stream = "0.3"
futures-util = "0.3"
