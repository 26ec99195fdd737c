[package]
name = "agentlink_core"
version = "0.1.0"
edition = "2021"
publish = false

[dependencies]
anyhow = "1"
chrono = "0.4"
clap = { version = "4", features = ["derive", "env"] }
colored = "2"
ctrlc = "3"
dialoguer = "0.11"
tokio = { version = "1", features = ["rt-multi-thread", "macros", "sync", "time", "io-util", "io-std"] }
tracing-subscriber = { version = "0.3", features = ["env-filter"] }
