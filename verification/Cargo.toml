[package]
name = "listing_core"
version = "0.1.0"
edition = "2021"
publish = false

[dependencies]
axum = { version = "*", features = ["multipart"] }
chrono = "*"
diesel = { version = "*", features = ["postgres", "r2d2"] }
futures-util = "*"
log = "*"
redis = { version = "*", features = ["tokio-comp"] }
serde = { version = "*", features = ["derive"] }
tokio = { version = "*", features = ["full"] }
validator = { version = "*", features = ["derive"] }
