[package]
name = "careerbot"
version = "0.1.0"
edition = "2021"
publish = false

[dependencies]
toml = "*"
chrono = { version = "*", default-features = false, features = ["std", "clock", "serde"] }
redis = { version = "*", default-features = false, features = ["tokio-comp", "streams"] }
serde = { version = "1", features = ["derive"] }
serde_json = "1"
tokio = { version = "1", features = ["full"] }
axum = { version = "0.8", default-features = false, features = ["tokio", "http1", "json", "query"] }
reqwest = { version = "0.12", default-features = false, features = ["json", "rustls-tls"] }
clap = { version = "4", features = ["derive"] }
sqlx = { version = "0.8", default-features = false, features = ["runtime-tokio", "sqlite", "postgres", "macros", "migrate", "chrono", "uuid"] }
notify-rust = "4"
tempfile = "3"
tracing = "0.1"
tracing-subscriber = { version = "0.3", features = ["json", "env-filter"] }
uuid = { version = "1", features = ["v4", "serde"] }
async-trait = "0.1"
futures = "0.3"
dotenvy = "0.15"
derive_builder = "0.20"
