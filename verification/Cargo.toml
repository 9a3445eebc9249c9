[package]
name = "late"
version = "0.1.0"
edition = "2021"
publish = false

[dependencies]
uuid = { version = "=1.29.0", features = ["v4", "serde"] }
unicode-width = "=0.2.3"
base64 = "=0.22.1"
chrono = "=0.4.45"
serde = { version = "=1.0.229", features = ["derive"] }
serde_json = "=1.0.154"
anyhow = "=1.0.104"
tokio = { version = "=1.54.1", features = ["sync", "rt", "macros", "time"] }
tokio-postgres = { version = "=0.7.18", features = ["with-uuid-1", "with-chrono-0_4", "with-serde_json-1"] }
deadpool-postgres = "=0.14.2"
tracing = "=0.1.44"
ratatui = "=0.30.2"
ratatui-textarea = "=0.9.4"
