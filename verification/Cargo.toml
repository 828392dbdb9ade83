[package]
name = "llm_cache_service"
version = "0.1.0"
edition = "2021"
publish = false

[dependencies]
axum = "*"
bb8 = "*"
bb8-redis = "*"
redis = { version = "*", features = ["tokio-comp"] }
reqwest = { version = "*", default-features = false, features = ["json"] }
serde = { version = "*", features = ["derive"] }
serde_json = "*"
sqlx = { version = "*", default-features = false, features = ["runtime-tokio", "sqlite"] }
thiserror = "*"
tokio = { version = "*", features = ["rt-multi-thread", "macros", "signal", "net"] }
toml = "*"
tracing = "*"
tracing-subscriber = "*"
