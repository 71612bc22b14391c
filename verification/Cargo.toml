[package]
name = "mcgill_courses"
version = "0.1.0"
edition = "2021"
publish = false

[dependencies]
anyhow = "1"
bson = { version = "2", features = ["chrono-0_4"] }
chrono = "0.4"
clap = { version = "4", features = ["derive"] }
dotenv = "0.15"
env_logger = "0.10"
futures = "0.3"
log = "0.4"
mongodb = "2"
rayon = "1"
reqwest = { version = "0.11", default-features = false, features = ["blocking", "rustls-tls"] }
scraper = "*"
serde = { version = "1", features = ["derive"] }
serde_json = "1"
tokio = { version = "1", features = ["rt-multi-thread", "macros"] }
