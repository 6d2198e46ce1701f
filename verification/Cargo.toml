[package]
name = "querykit"
version = "0.1.0"
edition = "2021"
publish = false

[dependencies]
base62 = "=2.2.6"
uuid = { version = "=1.27.0", features = ["v7"] }
pbkdf2 = { version = "=0.12.2", features = ["simple"] }
chrono = { version = "=0.4.45", features = ["serde"] }
axum = { version = "=0.8.9", features = ["macros"] }
tokio = { version = "*", features = ["full"] }
tokio-postgres = { version = "=0.7.18", features = ["with-chrono-0_4"] }
bb8 = "=0.9.1"
bb8-postgres = "=0.9.0"
serde = { version = "*", features = ["derive"] }
serde_with = "=3.24.0"
tower = "*"
tower-http = { version = "*", features = ["trace", "sensitive-headers", "catch-panic"] }
tracing = "*"
tracing-subscriber = { version = "*", features = ["env-filter"] }
validator = { version = "=0.21.0", features = ["derive"] }
regex = "*"
