[package]
name = "rings_node"
version = "0.1.0"
edition = "2021"
publish = false

[dependencies]
libsecp256k1 = "*"
sha2 = "*"
flate2 = "*"
bs58 = "*"
uuid = { version = "*", features = ["v4"] }
serde = { version = "*", features = ["derive"] }
serde_yaml = "*"
bytes = "*"
tokio = { version = "*", features = ["rt", "net", "io-util", "sync", "time", "macros"] }
tokio-util = "*"
tracing = "*"
anyhow = "*"
