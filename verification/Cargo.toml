[package]
name = "tgtg_monitor"
version = "0.1.0"
edition = "2021"
publish = false

[dependencies]
regex = "*"
anyhow = "*"
chrono = { version = "*", features = ["serde"] }
chrono-tz = { version = "*", features = ["serde"] }
dotenvy = "*"
poise = "*"
pyo3 = "*"
serde = { version = "*", features = ["derive"] }
serde_json = "*"
sqlx = { version = "*", default-features = false, features = ["runtime-tokio", "sqlite"] }
tokio = { version = "*", features = ["macros", "rt-multi-thread", "time", "signal"] }
tracing = "*"
tracing-subscriber = { version = "*", features = ["env-filter"] }
