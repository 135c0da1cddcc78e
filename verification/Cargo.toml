[package]
name = "todo_api"
version = "0.1.0"
edition = "2021"
publish = false

[dependencies]
axum = "0.7"
bson = "2"
chrono = "0.4"
dotenv = "0.15"
futures = "0.3"
mongodb = "2"
serde = { version = "1", features = ["derive"] }
tokio = { version = "1", features = ["full"] }
