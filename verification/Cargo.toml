[package]
name = "lpagent"
version = "0.1.0"
edition = "2021"
publish = false

[dependencies]
textwrap = "=0.16.4"
serde_json = "=1.0.154"
tokio = { version = "=1.54.1", features = ["sync", "rt", "macros"] }
clap = { version = "=4.6.7", features = ["derive"] }
anyhow = "=1.0.104"
chrono = "=0.4.45"
unicode-width = "=0.2.3"
