[package]
name = "agora"
version = "0.1.0"
edition = "2021"
publish = false

[dependencies]
rand = "*"
rand_chacha = "*"
serde = { version = "*", features = ["derive"] }
serde_json = "*"
thiserror = "*"
tokio = { version = "*", features = ["rt-multi-thread", "macros", "net", "sync", "time", "signal"] }
tokio-tungstenite = "*"
futures-util = { version = "*", features = ["sink"] }
tracing = "*"
tracing-subscriber = { version = "*", features = ["env-filter", "fmt"] }
clap = { version = "*", features = ["derive"] }
