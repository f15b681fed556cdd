[package]
name = "exchange"
version = "0.1.0"
edition = "2021"
publish = false

[dependencies]
toml = "=0.8.23"
uuid = { version = "=1.29.0", features = ["v4", "serde"] }
serde = { version = "=1.0.229", features = ["derive"] }
serde_json = "=1.0.154"
thiserror = "=1.0.69"
tokio = { version = "=1.54.1", features = ["rt", "rt-multi-thread", "sync", "time", "macros", "net", "signal"] }
tracing = "=0.1.44"
tracing-subscriber = "=0.3.23"
dotenv = "=0.15.0"
axum = "=0.7.9"
redis = { version = "=0.25.5", default-features = false }
sqlx = { version = "=0.7.4", default-features = false, features = ["postgres", "runtime-tokio", "uuid"] }
tonic = "=0.11.0"
