[package]
name = "probe_zmq"
version = "0.1.0"
edition = "2021"
publish = false

[dependencies]
regex = "1"
argh = "*"
serde = { version = "1", features = ["derive"] }
toml = "*"
thiserror = "*"
tokio = { version = "1", features = ["full"] }
tokio-stream = "*"
crossterm = { version = "*", features = ["event-stream"] }
ratatui = "*"
tracing = "*"
tracing-error = "*"
tracing-subscriber = { version = "*", features = ["env-filter"] }
color-eyre = "*"
zeromq = "*"
