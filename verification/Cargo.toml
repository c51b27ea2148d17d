[package]
name = "datafusion-odata"
version = "0.1.0"
edition = "2021"
publish = false

[dependencies]
async-trait = "0.1"
axum = { version = "0.6", features = ["headers"] }
bigdecimal = "=0.4.11"
chrono = "=0.4.39"
datafusion = { version = "40", default-features = false, features = ["parquet"] }
http = "0.2"
odata-params = "=0.4.0"
quick-xml = { version = "=0.36.2", features = ["serialize"] }
serde = { version = "1", features = ["derive"] }
thiserror = "1"
tokio = { version = "1", features = ["macros", "rt-multi-thread"] }
tower-http = { version = "0.4", features = ["cors", "trace"] }
tracing = "0.1"
tracing-subscriber = { version = "0.3", features = ["env-filter"] }
uuid = "=1.29.0"
