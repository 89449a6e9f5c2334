[package]
name = "scheduling_optimizer"
version = "0.1.0"
edition = "2021"
publish = false

[dependencies]
rand = "0.8"
serde = { version = "1", features = ["derive"] }
serde_json = "1"
tokio = { version = "1", features = ["rt-multi-thread", "macros", "net", "sync"] }
axum = "0.8"
tower-http = { version = "0.6", features = ["cors", "fs"] }
