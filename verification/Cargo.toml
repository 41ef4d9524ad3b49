[package]
name = "flight_scheduler"
version = "0.1.0"
edition = "2021"
publish = false

[dependencies]
chrono = { version = "=0.4.45", features = ["serde"] }
actix-web = { version = "=4.15.0", default-features = false, features = ["macros"] }
actix-files = "=0.7.0"
dotenv = "=0.15.0"
reqwest = { version = "=0.13.5", default-features = false }
serde = { version = "=1.0.229", features = ["derive"] }
serde_json = "=1.0.151"
