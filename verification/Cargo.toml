[package]
name = "scraper_service"
version = "0.1.0"
edition = "2021"
publish = false

[dependencies]
axum = "0.8"
backoff = { version = "0.4", features = ["tokio"] }
bcrypt = "0.15"
chrono = { version = "0.4", features = ["serde"] }
clap = { version = "4", features = ["derive"] }
dashmap = "6"
dotenv = "0.15"
dotenvy = "0.15"
futures = "0.3"
jsonwebtoken = "9"
reqwest = { version = "0.12", default-features = false, features = ["json", "rustls-tls"] }
scraper = "*"
serde = { version = "1", features = ["derive"] }
serde_json = "1"
sqlx = { version = "0.8", default-features = false, features = ["mysql", "runtime-tokio", "json"] }
tokio = { version = "1", features = ["rt-multi-thread", "macros", "net", "time"] }
tower-cookies = "0.11"
tower-http = { version = "0.6", features = ["cors"] }
url = "2"
uuid = { version = "1", features = ["v4", "serde"] }
