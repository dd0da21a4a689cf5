[package]
name = "library_seats"
version = "0.1.0"
edition = "2021"
publish = false

[dependencies]
chrono = "0.4"
actix-web = { version = "4", default-features = false, features = ["macros"] }
actix-cors = "0.7"
env_logger = "0.11"
rusqlite = "0.31"
serde = { version = "1", features = ["derive"] }

[dev-dependencies]
