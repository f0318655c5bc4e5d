[package]
name = "argus_tui"
version = "0.1.0"
edition = "2021"
publish = false

[dependencies]
base64 = "=0.22.1"
nucleo-matcher = "=0.3.1"
unicode-width = "=0.2.0"
ratatui = "=0.29.0"
crossterm = { version = "=0.28.1", features = ["event-stream"] }
futures = "=0.3.34"
serde_json = "=1.0.154"
sys-locale = "=0.3.2"
tokio = { version = "1", features = ["rt-multi-thread", "macros", "sync", "time"] }
uuid = { version = "1", features = ["v4"] }
vt100 = "0.15"
tui-term = "0.2"
anyhow = "1"
