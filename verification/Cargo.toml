[package]
name = "stoicdreams_timestamp"
version = "0.1.0"
edition = "2021"
publish = false

[dependencies]
serde = { version = "1", features = ["derive"] }
sqlx = { version = "*", default-features = false, features = ["derive"] }
