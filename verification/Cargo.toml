[package]
name = "markdown_extract"
version = "0.1.0"
edition = "2021"
publish = false

[dependencies]
chrono = "=0.4.45"
chrono-tz = "=0.10.4"
clap = { version = "=4.6.7", features = ["derive"] }
comrak = { version = "=0.57.0", default-features = false }
grep-regex = "=0.1.14"
grep-searcher = "=0.1.17"
ignore = "=0.4.33"
serde = { version = "=1.0.229", features = ["derive"] }
serde_json = "=1.0.154"

[dev-dependencies]
regex = "1"
