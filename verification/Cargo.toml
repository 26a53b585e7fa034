[package]
name = "type_bridge"
version = "0.1.0"
edition = "2021"
publish = false

[dependencies]
getrandom = "0.2"
if-addrs = "0.13"
qrcode = { version = "0.14", default-features = false }
axum = "0.7"
socketioxide = "0.15"
tokio = { version = "1", features = ["rt-multi-thread", "net", "sync", "macros"] }
serde = { version = "1", features = ["derive"] }
clap = { version = "4", features = ["derive"] }
tracing = "0.1"
tracing-subscriber = "0.3"
