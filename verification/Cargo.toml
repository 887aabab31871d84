[package]
name = "termie"
version = "0.1.0"
edition = "2021"
publish = false

[dependencies]
serde_json = "1"
bytes = "1"
fontdue = "0.9"
http-body-util = "0.1"
hyper = { version = "1", features = ["client", "http1"] }
hyper-util = { version = "0.1", features = ["tokio"] }
portable-pty = "0.9"
softbuffer = "0.4"
tokio = { version = "1", features = ["rt-multi-thread", "net", "sync"] }
winit = "0.30"
