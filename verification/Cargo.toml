[package]
name = "apk_tools"
version = "0.1.0"
edition = "2021"
publish = false

[dependencies]
anyhow = "1.0.93"
clap = { version = "4.5.21", features = ["derive"] }
dialoguer = { version = "0.11.0", features = ["fuzzy-select"] }
serde = { version = "1.0.215", features = ["derive"] }
serde_json = "1.0.133"
time = { version = "0.3.36", features = ["local-offset", "formatting"] }
tokio = { version = "1.41.1", features = ["full"] }
tracing = "0.1.41"
tracing-appender = "0.2.3"
tracing-subscriber = { version = "0.3.18", features = ["env-filter", "registry", "time"] }
zip = { version = "2.2.1", default-features = false, features = ["deflate"] }
