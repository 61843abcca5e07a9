[package]
name = "cotrans_gateway"
version = "0.1.0"
edition = "2021"
publish = false

[dependencies]
ring = "0.16"
axum = { version = "0.6", features = ["ws", "headers", "multipart"] }
tokio = { version = "1", features = ["rt-multi-thread", "macros", "sync", "time"] }
serde = { version = "1", features = ["derive"] }
serde_json = "1"
reqwest = { version = "0.11", default-features = false, features = ["json"] }
chrono = "0.4"
cuid = "1"
hex = "0.4"
futures = "0.3"
