[package]
name = "synergy_parser"
version = "0.1.0"
edition = "2021"
publish = false

[dependencies]
byteorder_async = "*"
serialport = { version = "4", default-features = false }
thiserror = "1"
tokio = { version = "1", features = ["io-util", "macros", "net", "rt-multi-thread"] }
tracing = "0.1"
