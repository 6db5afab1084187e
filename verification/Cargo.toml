[package]
name = "ai_forward"
version = "0.1.0"
edition = "2021"
publish = false

[dependencies]
dashmap = "6"
ipnet = "2"
serde = { version = "1", features = ["derive"] }
serde_json = "1"
axum = "0.7"
tokio = { version = "1", features = ["full"] }
reqwest = { version = "0.12", default-features = false, features = ["json", "stream"] }
sqlx = { version = "0.8", default-features = false, features = ["postgres", "runtime-tokio", "json"] }
thiserror = "1"
clap = { version = "4", features = ["derive"] }
tracing = "0.1"
tracing-subscriber = { version = "0.3", features = ["fmt", "chrono"] }
tower = "0.5"
tower-http = { version = "0.6", features = ["trace"] }
file-rotate = "0.7"
chrono = "0.4"
futures = "0.3"
eventsource-stream = "0.2"
once_cell = "1"
