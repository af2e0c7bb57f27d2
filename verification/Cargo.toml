[package]
name = "rudderanalytics"
version = "1.1.3"
edition = "2021"
publish = false

[dependencies]
chrono = "0.4"
serde = { version = "1", features = ["derive"] }
serde_json = "1"
reqwest = { version = "0.12", default-features = false, features = ["blocking", "json"] }
clap = "2"
log = "0.4"
thiserror = "1"
