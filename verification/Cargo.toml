[package]
name = "fggb"
version = "0.1.0"
edition = "2021"
publish = false

[dependencies]
axum = "0.8"
frida = "*"
self_cell = "1"
serde = { version = "1", features = ["derive"] }
serde_json = "1"
thiserror = "2"
tokio = { version = "1", features = ["macros", "net", "rt-multi-thread", "signal", "sync", "time"] }
tracing = "0.1"
tracing-subscriber = { version = "0.3", features = ["env-filter"] }
