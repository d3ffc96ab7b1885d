[package]
name = "sloc_guard"
version = "0.1.0"
edition = "2021"
publish = false

[dependencies]
globset = "*"
regex = "*"
serde = { version = "1", features = ["derive"] }
serde_json = "1"
walkdir = "2"
ignore = "*"
dunce = "1"

[dev-dependencies]
tempfile = "3"
