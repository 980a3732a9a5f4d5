[package]
name = "milestones"
version = "0.1.0"
edition = "2021"
publish = false

[dependencies]
serde_json = "1"
serde = { version = "1", features = ["derive"] }
chrono = { version = "0.4", features = ["serde"] }
actix-web = { version = "4", default-features = false, features = ["macros", "compress-gzip"] }
actix-cors = "0.7"
deadpool-postgres = "0.14"
tokio-postgres = { version = "0.7", features = ["with-chrono-0_4", "with-serde_json-1"] }
env_logger = "0.11"
