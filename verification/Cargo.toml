[package]
name = "site_compiler"
version = "0.1.0"
edition = "2021"
publish = false

[dependencies]
handlebars = "5"
markdown = "1"
notify = "6"
serde = { version = "1", features = ["derive"] }
serde_yaml = "0.9"
thiserror = "1"
time = { version = "0.3", features = ["serde-human-readable"] }
walkdir = "2"

[dev-dependencies]
serde_json = "1"
