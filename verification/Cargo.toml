[package]
name = "tiny-logs"
version = "0.1.0"
edition = "2021"
publish = false

[dependencies]
libc = "0.2"
log = { version = "0.4", features = ["std"] }
owo-colors = { version = "4", features = ["supports-colors"] }
time = { version = "0.3", features = ["formatting", "local-offset"] }
tokio = { version = "1", features = ["fs", "io-std", "io-util", "macros", "rt-multi-thread", "sync"] }
