[package]
name = "strategy_tester"
version = "0.1.0"
edition = "2021"
publish = false

[dependencies]
chrono = "0.4"
uuid = { version = "1", features = ["v4"] }
serde = { version = "1", features = ["derive"] }
thiserror = "1"
polars = { version = "*", default-features = false, features = ["parquet"] }
