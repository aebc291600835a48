[package]
name = "zmq_rs"
version = "0.1.0"
edition = "2021"
publish = false

[dependencies]
async-trait = "=0.1.92"
bytes = "=0.5.6"
futures-util = { version = "=0.3.34", default-features = false, features = ["std", "sink"] }
tokio = { version = "=0.2.25", features = ["tcp", "stream", "dns"] }
tokio-util = { version = "=0.3.1", features = ["codec"] }
