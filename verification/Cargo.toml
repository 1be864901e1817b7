[package]
name = "cosmo_store"
version = "0.1.0"
edition = "2021"
publish = false

[dependencies]
anyhow = "1"
async-trait = "0.1"
chrono = "0.4"
serde = "1"
serde_json = "1"
sqlx = { version = "0.8", default-features = false, features = ["postgres", "sqlite", "uuid", "chrono", "json", "runtime-tokio"] }
uuid = { version = "1", features = ["v4"] }
