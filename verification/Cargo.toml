[package]
name = "auth_service"
version = "0.1.0"
edition = "2021"
publish = false

[dependencies]
uuid = { version = "1", features = ["v4"] }
tonic = "*"
tokio = { version = "1", features = ["macros", "rt-multi-thread"] }
