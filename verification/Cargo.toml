[package]
name = "steam_cli"
version = "0.1.0"
edition = "2021"
publish = false

[dependencies]
backoff = "=0.4.0"
nucleo-matcher = "=0.3.1"
serde_json = "=1.0.151"
serde = { version = "1", features = ["derive"] }
reqwest = { version = "=0.13.5", default-features = false, features = ["query"] }
tokio = { version = "=1.53.2", features = ["rt", "time", "net"] }
futures = "=0.3.34"
clap = { version = "=4.6.7", features = ["cargo"] }
