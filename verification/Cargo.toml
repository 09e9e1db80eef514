[package]
name = "marius_forge"
version = "0.1.0"
edition = "2021"
publish = false

[dependencies]
regex = "1"
sqlx = { version = "0.8", default-features = false, features = ["postgres", "runtime-tokio"] }
