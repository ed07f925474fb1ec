[package]
name = "minibroker"
version = "0.1.0"
edition = "2021"
publish = false

[dependencies]
tokio = { version = "1", features = ["fs", "io-util", "macros", "net", "rt-multi-thread"] }
futures = "0.3"

[dev-dependencies]
kafka-protocol = "*"
bytes = "1"
uuid = "1"
