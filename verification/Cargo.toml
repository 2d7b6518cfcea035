[package]
name = "jvs"
version = "0.1.0"
edition = "2021"
publish = false

[dependencies]
anyhow = "*"
clap = { version = "*", features = ["derive"] }
futures = "*"
indicatif = "*"
serde = { version = "*", features = ["derive"] }
serde_json = "*"
tokio = { version = "*", features = ["macros", "process", "rt-multi-thread", "time"] }
tracing = "*"
tracing-subscriber = "*"
