[package]
name = "onnx_serving"
version = "1.0.2"
edition = "2021"
rust-version = "1.95"
publish = false

[dependencies]
axum = "=0.8.9"
kstring = "=2.0.2"
prost = "=0.13.5"
serde_json = "=1.0.154"
tokio = { version = "1", features = ["macros", "net", "rt-multi-thread", "sync", "time"] }
tokio-stream = { version = "0.1", features = ["net"] }
tonic = "=0.13.1"
tract-onnx = "=0.21.19"
