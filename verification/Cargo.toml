[package]
name = "localcoder"
version = "0.1.0"
edition = "2021"
publish = false

[dependencies]
anyhow = "1"
axum = { version = "0.8", features = ["ws"] }
colored = "*"
futures-util = "0.3"
oxink = "*"
reqwest = { version = "0.12", default-features = false, features = ["json", "rustls-tls"] }
serde = { version = "1", features = ["derive"] }
serde_json = "1"
termimad = "*"
tokio = { version = "1", features = ["full"] }
