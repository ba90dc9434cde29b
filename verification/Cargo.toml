[package]
name = "nature"
version = "0.1.0"
edition = "2021"
publish = false

[dependencies]
chrono = "*"
mysql_async = { version = "*", default-features = false, features = ["minimal"] }
serde = { version = "*", features = ["derive"] }
serde_json = { version = "*", features = ["raw_value"] }
tokio = { version = "*", features = ["rt-multi-thread"] }
uuid = { version = "*", features = ["v3"] }
