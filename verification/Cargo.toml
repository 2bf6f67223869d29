[package]
name = "resource_group"
version = "0.1.0"
edition = "2021"
publish = false

[dependencies]
async-trait = "=0.1.92"
axum = { version = "=0.8.9", default-features = false, features = ["json", "http1", "query", "tokio"] }
bigdecimal = "=0.4.11"
gts = "=0.16.2"
http = "=1.5.0"
jsonschema = { version = "=0.60.2", default-features = false }
sea-orm = { version = "=1.1.20", default-features = false, features = ["macros", "with-uuid", "with-time", "with-json"] }
sea-orm-migration = { version = "=1.1.20", default-features = false }
serde = { version = "=1.0.229", features = ["derive"] }
serde_json = "=1.0.154"
thiserror = "=2.0.21"
time = "=0.3.55"
tracing = "=0.1.44"
utoipa = { version = "=5.5.0", features = ["uuid"] }
uuid = { version = "=1.29.0", features = ["v7", "serde"] }

[dev-dependencies]
tokio = { version = "=1.54.1", features = ["rt", "macros"] }
