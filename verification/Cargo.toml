[package]
name = "zap_scanner"
version = "0.1.0"
edition = "2021"
publish = false

[dependencies]
anyhow = "*"
axum = "*"
chrono = { version = "*", default-features = false, features = ["clock"] }
futures-util = "*"
redis = { version = "*", features = ["tokio-comp"] }
serde = { version = "*", features = ["derive"] }
serde_json = "*"
sqlx = { version = "*", default-features = false, features = ["runtime-tokio", "sqlite", "derive", "uuid", "macros"] }
tokio = { version = "*", features = ["macros", "rt-multi-thread", "net", "fs", "time"] }
tower-http = { version = "*", features = ["cors", "fs"] }
uuid = { version = "*", features = ["v4"] }
