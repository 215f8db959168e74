[package]
name = "ollama_proxy"
version = "0.1.0"
edition = "2021"
publish = false

[dependencies]
serde_json = "*"
serde = { version = "*", features = ["derive"] }
serde_yaml = "*"
axum = "*"
tokio = { version = "*", features = ["macros", "rt-multi-thread", "net", "time"] }
tower-http = { version = "*", features = ["cors", "trace"] }
futures = "*"
async-stream = "*"
reqwest = { version = "*", default-features = false, features = ["json", "stream"] }
chrono = "*"
tracing = "*"
tracing-subscriber = "*"
