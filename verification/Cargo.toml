[package]
name = "termmux"
version = "0.1.0"
edition = "2021"
publish = false

[dependencies]
regex = "1"
uuid = { version = "1", features = ["v4"] }
unicode-width = "0.2"
portable-pty = "0.9"
libc = "0.2"
tokio = { version = "1", features = ["rt-multi-thread", "sync", "net", "time", "io-util", "macros"] }
serde = { version = "1", features = ["derive"] }
serde_json = "1"
chrono = "0.4"
