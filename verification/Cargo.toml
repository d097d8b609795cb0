[package]
name = "lobby"
version = "0.1.0"
edition = "2021"
publish = false

[dependencies]
tokio = { version = "=1.54.1", features = ["full"] }
fastwebsockets = { version = "=0.8.1", features = ["upgrade", "unstable-split"] }
hyper = { version = "=1.12.0", features = ["server", "http1"] }
hyper-util = { version = "=0.1.21", features = ["tokio"] }
http-body-util = "=0.1.5"
serde_json = "=1.0.154"
uuid = { version = "=1.29.0", features = ["v4"] }
