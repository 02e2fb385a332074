[package]
name = "gemini_marketplace"
version = "0.1.0"
edition = "2021"
publish = false

[dependencies]
url = "2"
semver = "1"
sha2 = "0.10"
humantime = "2"
humantime-serde = "1"
chrono = { version = "0.4", default-features = false, features = ["std", "clock", "serde"] }
serde = { version = "1", features = ["derive"] }
serde_json = "1"
anyhow = "1"
thiserror = "1"
clap = { version = "4", features = ["derive"] }
tokio = { version = "1", features = ["macros", "rt-multi-thread", "net", "time"] }
reqwest = { version = "0.12", default-features = false }
axum = "0.7"
directories = "5"
schemars = "0.8"
tracing = "0.1"

[dev-dependencies]
tempfile = "3"
