[package]
name = "twinkle"
version = "0.1.0"
edition = "2021"
publish = false

[dependencies]
futures = "=0.3.34"
tokio = { version = "=0.2.25", features = ["dns", "sync", "time", "udp"] }
uuid = { version = "=0.8.2", features = ["v4"] }
