[package]
name = "servers"
version = "0.1.0"
edition = "2021"
publish = false

[dependencies]
anyhow = "1"
async-std = "1"
async-trait = "0.1"
better-panic = "0.3"
clap = { version = "3", features = ["derive"] }
futures = "0.3"
futures-util = "0.3"
libloading = "0.7"
tokio = { version = "1", features = ["full"] }
tokio-tungstenite = "0.17"
tracing = "0.1"
tracing-subscriber = "0.3"
tungstenite = "0.17"
