[package]
name = "sub_manager_lite"
version = "1.0.0"
edition = "2021"
publish = false

[dependencies]
chrono = "0.4"
subtle = "2"
axum = "0.8"
tokio = { version = "1", features = ["macros", "rt", "net", "time"] }
rusqlite = { version = "*", features = ["bundled"] }
reqwest = { version = "0.12", default-features = false, features = ["json", "rustls-tls"] }
serde = { version = "1", features = ["derive"] }
serde_json = "1"
tracing = "0.1"
tracing-subscriber = { version = "0.3", features = ["env-filter"] }
utoipa = "5"
utoipa-swagger-ui = { version = "9", features = ["axum", "vendored"] }
utoipa-redoc = { version = "6", features = ["axum"] }
