[package]
name = "socket-swap"
version = "0.1.0"
edition = "2021"
publish = false

[dependencies]
backon = "*"
bytes = "*"
crc32fast = "*"
futures = "*"
http-body-util = "*"
hyper = { version = "1", features = ["full"] }
hyper-util = { version = "*", features = ["full"] }
k8s-openapi = { version = "*", features = ["latest"] }
kube = "*"
schemars = "*"
serde = { version = "1", features = ["derive"] }
serde_json = "1"
tokio = { version = "1", features = ["full"] }
tracing = "*"
tracing-subscriber = "*"
uuid = { version = "*", features = ["v4"] }
