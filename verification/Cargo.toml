[package]
name = "sharoomies"
version = "0.1.0"
edition = "2021"
publish = false

[dependencies]
anyhow = "=1.0.104"
argon2 = "=0.5.3"
axum = "=0.6.20"
base64 = "=0.21.7"
clap = { version = "=4.6.7", features = ["derive", "env"] }
dotenv = "=0.15.0"
env_logger = "=0.10.2"
futures = "=0.3.34"
hmac = "0.12"
hyper = { version = "=0.14.32", features = ["full"] }
hyper-tls = "=0.5.0"
jwt = "0.16"
log = "=0.4.34"
rand = "=0.8.8"
serde = { version = "=1.0.229", features = ["derive"] }
serde_json = "=1.0.154"
sha2 = "0.10"
sqlx = { version = "=0.7.4", default-features = false, features = ["runtime-tokio", "postgres", "uuid", "json", "migrate"] }
time = "0.3"
tokio = { version = "=1.54.1", features = ["macros", "rt-multi-thread"] }
uuid = { version = "=1.29.0", features = ["serde"] }
