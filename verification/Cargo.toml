[package]
name = "spark_candles"
version = "0.1.0"
edition = "2021"
publish = false

[dependencies]
chrono = { version = "0.4", default-features = false, features = ["std", "now"] }
ethers-core = "2"
futures = "0.3"
log = "0.4"
pangea-client = "0.3"
rocket = { version = "0.5", default-features = false, features = ["json"] }
rocket_okapi = { version = "0.9", features = ["swagger"] }
schemars = "0.8"
serde = { version = "1", features = ["derive"] }
serde_json = "1"
tokio = { version = "1", features = ["macros", "rt-multi-thread", "signal", "sync", "time"] }
