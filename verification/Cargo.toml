[package]
name = "broadcast"
version = "0.1.0"
edition = "2021"
publish = false

[dependencies]
anyhow = "1"
bincode = "2.0"
clap = { version = "4", features = ["derive"] }
crossterm = "0.29"
portable-pty = "0.9"
termina = "*"
terminput = "*"
thiserror = "2"
tokio = { version = "1", features = ["full"] }
tracing = "0.1"
tracing-appender = "0.2"
tracing-subscriber = "0.3"
