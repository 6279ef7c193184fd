[package]
name = "warp_rate_limit"
version = "0.1.0"
edition = "2021"
publish = false

[dependencies]
warp = "0.3"
chrono = "0.4"
tokio = { version = "1", features = ["sync", "macros", "rt-multi-thread"] }
serde = { version = "1", features = ["derive"] }
