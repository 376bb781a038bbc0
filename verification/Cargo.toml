[package]
name = "undelegation_query"
version = "0.1.0"
edition = "2021"
publish = false

[dependencies]
serde = { version = "*", features = ["derive"] }
axum = "=0.8.9"
sqlx = { version = "=0.9.0", default-features = false, features = ["runtime-tokio", "postgres", "chrono", "bigdecimal"] }
chrono = "=0.4.45"
bigdecimal = "=0.4.11"
