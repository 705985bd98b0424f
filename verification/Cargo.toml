[package]
name = "tensor_graph"
version = "0.1.0"
edition = "2021"
publish = false

[dependencies]
half = "=2.7.1"
num-complex = { version = "=0.4.6", default-features = false }
tensorflow = "=0.21.0"
uuid = { version = "=1.29.0", features = ["v4"] }
