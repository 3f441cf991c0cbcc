[package]
name = "clipforge"
version = "0.1.0"
edition = "2021"
publish = false

[dependencies]
base64 = "*"
chrono = "*"
reqwest = { version = "*", default-features = false, features = ["rustls-tls", "json", "multipart"] }
serde = { version = "*", features = ["derive"] }
serde_json = "*"
tokio = { version = "*", features = ["rt-multi-thread", "macros", "fs"] }
uuid = { version = "*", features = ["v4"] }
which = "*"
