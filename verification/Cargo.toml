[package]
name = "cloud_config_validator"
version = "0.1.0"
edition = "2021"
publish = false

[dependencies]
axum = "=0.6.20"
clap = { version = "=4.6.7", features = ["derive"] }
jsonschema = { version = "=0.17.1", default-features = false }
rayon = "=1.12.0"
reqwest = { version = "=0.11.27", default-features = false, features = ["json"] }
serde = { version = "=1.0.229", features = ["derive"] }
serde_json = "=1.0.154"
serde_yaml = "=0.9.34"
tokio = { version = "=1.54.1", features = ["rt-multi-thread", "macros", "time", "sync"] }
tower-http = { version = "=0.4.4", features = ["trace"] }
tracing = "=0.1.44"
tracing-subscriber = { version = "=0.3.23", features = ["env-filter"] }
