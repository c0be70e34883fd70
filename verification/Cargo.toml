[package]
name = "id_generator_service"
version = "0.1.0"
edition = "2021"
publish = false

[dependencies]
rand = "0.8"
ulid = "1"
time = "0.3"
parking_lot = "0.12"
config = { version = "0.14", default-features = false, features = ["yaml"] }
serde = { version = "1", features = ["derive"] }
serde_json = "1"
thiserror = "1"
axum = "0.7"
tokio = { version = "1", features = ["macros", "rt-multi-thread", "net"] }
tower-http = { version = "0.5", features = ["cors", "trace"] }
prometheus = { version = "0.13", default-features = false }
tracing = "0.1"
tracing-subscriber = { version = "0.3", features = ["env-filter"] }
