[package]
name = "messenger_parser"
version = "0.1.0"
edition = "2021"
publish = false

[dependencies]
chrono = { version = "0.4", default-features = false, features = ["std"] }
serde = { version = "1", features = ["derive"] }
serde_json = "1"
actix = "*"
actix-web = { version = "4", default-features = false }
actix-cors = "*"
env_logger = "*"
