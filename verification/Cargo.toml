[package]
name = "club_events"
version = "0.1.0"
edition = "2021"
publish = false

[dependencies]
bcrypt = "0.15"
bson = "2"
chrono = { version = "0.4", features = ["serde"] }
dotenv = "0.15"
futures = "0.3"
hmac = "0.12"
mongodb = "3"
rocket = { version = "0.5", features = ["json"] }
rocket_cors = "0.6"
serde = { version = "1", features = ["derive"] }
sha2 = "0.10"
