[package]
name = "varied"
version = "0.1.0"
edition = "2021"
publish = false

[dependencies]
base64 = "=0.21.7"
sqids = "=0.3.1"
rand = "=0.8.8"
argon2 = "=0.5.3"
uuid = { version = "=1.29.1", features = ["v4"] }
url = { version = "=2.5.8", features = ["serde"] }
serde = { version = "=1.0.229", features = ["derive"] }
serde_json = "=1.0.154"
chrono = { version = "=0.4.45", features = ["serde"] }
toml = "=0.8.23"
tokio = { version = "=1.54.1", features = ["full"] }
axum = "=0.7.9"
axum-extra = { version = "=0.9.6", features = ["cookie"] }
axum_typed_multipart = "=0.11.2"
tempfile = "=3.27.0"
tower-http = { version = "=0.5.2", features = ["cors", "limit"] }
sea-orm = { version = "=0.12.15", default-features = false, features = ["macros", "with-json", "with-chrono", "runtime-tokio-rustls", "sqlx-postgres", "postgres-array"] }
sea-orm-migration = { version = "=0.12.15", default-features = false, features = ["runtime-tokio-rustls", "sqlx-postgres"] }
async-trait = "=0.1.92"
biscuit-auth = "=4.1.1"
ffmpeg-sidecar = "=1.2.0"
opendal = { version = "=0.45.1", default-features = false, features = ["services-s3", "services-http", "rustls"] }
