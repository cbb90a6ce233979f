[package]
name = "convex_dart"
version = "0.1.0"
edition = "2021"
publish = false

[dependencies]
serde_json = "1"
convex = "*"
tokio = { version = "1", features = ["sync", "rt"] }
futures = "0.3"
flutter_rust_bridge = "2"
