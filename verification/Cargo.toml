[package]
name = "users_repo"
version = "0.1.0"
edition = "2021"
publish = false

[dependencies]
sqlx = { version = "*", features = ["postgres", "runtime-tokio", "chrono", "uuid"] }
