[package]
name = "k8s_device_plugin"
version = "0.1.0"
edition = "2021"
publish = false

[dependencies]
async-trait = "0.1"
hyper-util = { version = "0.1", features = ["tokio"] }
prost = "0.14"
tempfile = "3"
tokio = { version = "1", features = ["fs", "macros", "net", "rt", "rt-multi-thread", "sync", "time"] }
tokio-stream = { version = "0.1", features = ["net"] }
tonic = { version = "0.14", features = ["transport"] }
tonic-prost = "0.14"
tower = { version = "0.5", features = ["util"] }
tracing = "0.1"
