[package]
name = "hotreload"
version = "0.1.0"
edition = "2021"
publish = false

[dependencies]
chrono = "0.4"
tokio = { version = "1", features = ["full"] }
axum = { version = "0.5", features = ["ws", "headers"] }
tower = "0.4"
tower-http = { version = "0.3", features = ["fs"] }
notify = "5"
serde = { version = "1", features = ["derive"] }
serde_json = "1"
log = "0.4"
colored = "2"
headers = "0.3"
