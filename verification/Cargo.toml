[package]
name = "hive-gpu"
version = "0.2.0"
edition = "2021"
publish = false

[dependencies]
serde = { version = "1", features = ["derive"] }
serde_json = "1"
thiserror = "2"
tracing = "0.1"
libloading = "0.8"
ash = "0.38"
cudarc = { version = "0.13", features = ["cublas"] }
objc2 = "0.6"
objc2-foundation = "0.3"
objc2-metal = "0.3"
