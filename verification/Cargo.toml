[package]
name = "microcourse"
version = "0.1.0"
edition = "2021"
publish = false

[dependencies]
uuid = { version = "=1.29.0", features = ["v4", "serde"] }
rust_decimal = "=1.43.0"
argon2 = "=0.5.3"
serde = { version = "=1.0.229", features = ["derive"] }
serde_json = "=1.0.154"
chrono = { version = "=0.4.45", features = ["serde"] }
axum = { version = "=0.8.9", features = ["multipart"] }
tokio = { version = "=1.54.1", features = ["full"] }
sqlx = { version = "=0.8.6", default-features = false, features = ["runtime-tokio", "postgres", "uuid", "chrono", "rust_decimal", "json", "macros"] }
aws-sdk-s3 = { version = "=1.157.0", default-features = false, features = ["rt-tokio", "behavior-version-latest"] }
jsonwebtoken = "=9.3.1"
calamine = "=0.30.1"
rust_xlsxwriter = "=0.102.0"
tempfile = "=3.27.0"
tracing = "=0.1.44"
tracing-subscriber = { version = "=0.3.23", features = ["env-filter"] }
dotenvy = "=0.15.7"
