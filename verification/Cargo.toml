[package]
name = "fono_hotkey"
version = "0.1.0"
edition = "2021"
publish = false

[dependencies]
anyhow = "1"
ashpd = { version = "*", default-features = false, features = ["tokio"] }
crossbeam-channel = "0.5"
futures = "0.3"
global-hotkey = "*"
tokio = { version = "1", features = ["rt", "sync", "macros", "time"] }
tracing = "0.1"
