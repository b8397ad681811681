[package]
name = "auth_query"
version = "0.1.0"
edition = "2021"
publish = false

[dependencies]
url = "=2.5.8"
serde_urlencoded = "=0.7.1"
serde = { version = "=1.0.229", features = ["derive"] }
serde_json = "=1.0.154"
thiserror = "=1.0.69"
async-trait = "=0.1.92"
axum = "=0.7.9"
tokio = { version = "=1.54.1", features = ["macros", "rt-multi-thread", "net"] }
utoipa = { version = "=4.2.3", features = ["url"] }
utoipa-swagger-ui = { version = "=7.1.0", features = ["axum", "vendored"] }
tracing = "=0.1.44"
tracing-subscriber = "=0.3.23"
color-eyre = "=0.6.5"
poem = "=3.1.12"
poem-openapi = "=5.1.16"
