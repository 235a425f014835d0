[package]
name = "ryu_healing"
version = "0.1.0"
edition = "2021"
publish = false

[dependencies]
anyhow = "1"
async-trait = "0.1"
# Without `json`, which would turn on `raw_value` of serde_json and with it give a
# member name a meaning of its own.
axum = { version = "=0.7.9", default-features = false, features = ["http1", "tokio"] }
chrono = { version = "=0.4.45", default-features = false, features = ["clock", "std"] }
reqwest = { version = "=0.12.28", default-features = false, features = ["rustls-tls"] }
serde = { version = "1", features = ["derive"] }
serde_json = "=1.0.154"
tokio = { version = "1", features = ["macros", "net", "rt-multi-thread", "sync"] }
tracing = "0.1"
tracing-subscriber = { version = "0.3", features = ["env-filter"] }
utoipa = "=5.5.0"
uuid = { version = "=1.29.0", features = ["v4"] }
