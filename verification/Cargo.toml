[package]
name = "dispatch-service"
version = "0.1.0"
edition = "2021"
publish = false

[dependencies]
core_affinity = "0.8"
crossbeam = "0.8"
hyper = { version = "0.14", features = ["server", "http1", "runtime"] }
net2 = "0.2"
regex = "1"
serde = { version = "1", features = ["derive"] }
serde_json = "1"
tokio = { version = "1", features = ["rt", "net", "time", "sync"] }
uuid = { version = "1", features = ["v4"] }
