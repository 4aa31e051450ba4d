[package]
name = "mesos"
version = "0.1.0"
edition = "2021"
publish = false

[dependencies]
hyper = { version = "=1.12.0", features = ["client", "http1"] }
hyper-util = { version = "0.1", features = ["tokio"] }
tokio = { version = "=1.53.2", features = ["rt", "net", "time"] }
http-body-util = "=0.1.5"
bytes = "=1.12.1"
