[package]
name = "dog_walking"
version = "0.1.0"
edition = "2021"
publish = false

[dependencies]
actix-web = "*"
chrono = "*"
futures-util = "*"
mongodb = "*"
serde = { version = "*", features = ["derive"] }
