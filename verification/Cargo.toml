[package]
name = "ask_workflow"
version = "0.1.0"
edition = "2021"
publish = false

[dependencies]
serde = { version = "1", features = ["derive"] }
serde_json = "1"
cuid = "1"
chrono = "0.4"
async-trait = "0.1"
axum = { version = "0.7", features = ["macros"] }
tokio = { version = "1", features = ["full"] }
futures = "0.3"
mongodb = "3"
tera = "1"
tracing = "0.1"
