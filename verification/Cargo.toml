[package]
name = "lam"
version = "0.1.0"
edition = "2021"
publish = false

[dependencies]
mlua = { version = "0.9", features = ["luau"] }
thiserror = "1"
anyhow = "1"
axum = "0.7"
clap = { version = "4", features = ["derive", "env"] }
serde_json = "1"
tokio = { version = "1", features = ["rt-multi-thread", "macros", "net"] }
tower-http = { version = "0.5", features = ["trace"] }
tracing = "0.1"
tracing-subscriber = { version = "0.3", features = ["env-filter"] }
