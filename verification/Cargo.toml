[package]
name = "ag_ui"
version = "0.1.0"
edition = "2021"
publish = false

[dependencies]
serde = { version = "1", features = ["derive"] }
serde_json = "1"
futures-core = "0.3"
futures-util = "0.3"
futures-channel = "0.3"
reqwest = { version = "0.12", default-features = false, features = ["stream"] }
