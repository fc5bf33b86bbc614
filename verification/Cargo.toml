[package]
name = "cpsi"
version = "0.1.0"
edition = "2021"
publish = false

[dependencies]
serde = { version = "1", features = ["derive"] }
thiserror = "*"
parquet = { version = "*", default-features = false }
