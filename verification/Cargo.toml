[package]
name = "grpc_health"
version = "0.1.0"
edition = "2021"
publish = false

[dependencies]
tokio = { version = "1", features = ["sync"] }
tonic = { version = "*", default-features = false, features = ["codegen"] }
