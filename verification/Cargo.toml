[package]
name = "book_notes"
version = "0.1.0"
edition = "2021"
publish = false

[dependencies]
validator = "*"
axum = "*"
tokio = { version = "*", features = ["full"] }
sqlx = { version = "*", features = ["runtime-tokio", "postgres", "chrono"] }
chrono = { version = "*", features = ["serde"] }
serde = { version = "*", features = ["derive"] }
serde_json = "*"
dotenvy = "*"
tower-http = { version = "*", features = ["cors"] }
thiserror = "*"
tracing = "*"
tracing-subscriber = { version = "*", features = ["env-filter"] }
tracing-log = "*"
tracing-bunyan-formatter = "*"
