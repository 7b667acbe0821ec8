[package]
name = "price_tracker"
version = "0.1.0"
edition = "2021"
publish = false

[dependencies]
is_prime = "*"
serde = { version = "*", features = ["derive"] }
serde_json = { version = "*", features = ["raw_value"] }
