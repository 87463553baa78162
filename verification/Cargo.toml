[package]
name = "project_memory"
version = "0.1.0"
edition = "2021"
publish = false

[dependencies]
anyhow = "=1.0.104"
chrono = { version = "=0.4.45", features = ["serde"] }
rusqlite = { version = "=0.41.1", features = ["bundled", "hooks"] }
serde = { version = "=1.0.229", features = ["derive"] }
serde_json = "=1.0.154"
sha2 = "=0.10.9"
thiserror = "=2.0.21"
tokio = { version = "=1.54.1", features = ["rt", "fs", "macros"] }
toml = "=1.1.8"
tracing = "=0.1.44"

[dev-dependencies]
tempfile = "=3.27.0"
