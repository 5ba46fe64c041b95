[package]
name = "shred_listener"
version = "0.1.0"
edition = "2021"
publish = false

[dependencies]
chrono = "*"
log = "*"
tokio = { version = "*", features = ["net", "rt-multi-thread", "sync", "time", "signal", "macros"] }

[dev-dependencies]
serde_json = "*"
