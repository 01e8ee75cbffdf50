[package]
name = "place_feed"
version = "0.1.0"
edition = "2021"
publish = false

[dependencies]
serde_json = "=1.0.151"
serde = { version = "*", features = ["derive"] }
scraper = "=0.27.0"
ego-tree = "=0.11.0"
headless_chrome = "*"
lambda_runtime = "*"
tokio = { version = "*", features = ["macros", "rt-multi-thread", "time"] }
geohash = "*"
