[package]
name = "thasia"
version = "0.1.0"
edition = "2021"
publish = false

[dependencies]
url = "2"
urlencoding = "2"
serde = { version = "1", features = ["derive"] }
serde_json = "1"
dirs = "*"
directories = "*"
fs2 = "0.4"
tracing = "0.1"
tracing-subscriber = { version = "0.3", features = ["env-filter"] }
tracing-appender = "0.2"
thiserror = "*"
tokio = { version = "1", features = ["fs", "rt-multi-thread", "sync", "time"] }
open = "*"
