[package]
name = "token_monitor"
version = "0.1.0"
edition = "2021"
publish = false

[dependencies]
serde = { version = "1", features = ["derive"] }
serde_json = "1"
reqwest = { version = "0.12", default-features = false, features = ["json", "stream", "rustls-tls"] }
chrono = "0.4"
tokio = { version = "1", features = ["full"] }
axum = "0.8"
tower-http = { version = "0.6", features = ["cors"] }
futures-util = "0.3"
bytes = "1"
tokio-stream = "0.1"
rusqlite = { version = "0.32", features = ["bundled"] }
sysinfo = "0.33"
libloading = "0.8"
