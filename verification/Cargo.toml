[package]
name = "mpc_manager"
version = "0.1.0"
edition = "2021"
publish = false

[dependencies]
anyhow = "1"
axum = { version = "0.6", features = ["ws"] }
config = { version = "0.13", default-features = false }
dotenv = "0.15"
futures-util = "0.3"
json-rpc2 = "*"
serde = { version = "1", features = ["derive"] }
serde-aux = "4"
serde_json = "1"
thiserror = "1"
tokio = { version = "1", features = ["macros", "rt-multi-thread", "sync"] }
tokio-stream = "0.1"
tower-http = { version = "0.4", features = ["trace"] }
tracing = "0.1"
uuid = { version = "1", features = ["v4", "serde"] }
