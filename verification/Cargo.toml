[package]
name = "modio_provider"
version = "0.1.0"
edition = "2021"
publish = false

[dependencies]
anyhow = "1"
async-trait = "0.1"
futures = "0.3"
modio = { version = "=0.13.3", default-features = false, features = ["rustls-tls"] }
reqwest = { version = "=0.11.27", default-features = false, features = ["json", "rustls-tls"] }
reqwest-middleware = "=0.2.5"
serde = { version = "1", features = ["derive"] }
task-local-extensions = "=0.1.4"
tokio = { version = "1", features = ["rt", "sync", "time", "macros", "io-util"] }
tracing = "0.1"
