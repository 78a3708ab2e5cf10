[package]
name = "oakis"
version = "0.1.0"
edition = "2021"
publish = false

[dependencies]
ammonia = "4"
anyhow = "1"
argon2 = "0.5"
askama = "0.12"
axum = { version = "0.7", features = ["multipart"] }
chrono = "0.4"
dotenvy = "0.15"
form_urlencoded = "1"
image = { version = "0.25", default-features = false, features = ["png", "jpeg", "webp", "gif", "ico"] }
pulldown-cmark = { version = "0.12", default-features = false, features = ["html"] }
rand_core = { version = "0.6", features = ["getrandom"] }
serde = { version = "1", features = ["derive"] }
serde_json = "1"
sqlx = { version = "0.8", default-features = false, features = ["sqlite", "runtime-tokio", "migrate", "macros"] }
thiserror = "1"
tokio = { version = "1", features = ["full"] }
tower-sessions = "0.13"
tracing = "0.1"
tracing-subscriber = { version = "0.3", features = ["env-filter"] }
uuid = { version = "1", features = ["v4"] }
zip = { version = "2", default-features = false, features = ["deflate"] }
