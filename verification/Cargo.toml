[package]
name = "familiar_hot_path"
version = "0.1.0"
edition = "2021"
publish = false

[dependencies]
crossbeam-channel = "*"
uuid = { version = "*", features = ["v4"] }
chrono = "*"
colored = "*"
serde = { version = "*", features = ["derive"] }
serde_json = "*"
thiserror = "*"
tokio = { version = "*", features = ["rt-multi-thread", "time", "macros", "net"] }
axum = "*"
async-graphql = "*"
async-graphql-axum = "*"
