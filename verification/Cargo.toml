[package]
name = "rox"
version = "0.1.0"
edition = "2021"
publish = false

[dependencies]
tokio = { version = "=1.53.2", features = ["rt", "process"] }
rayon = "=1.12.0"
semver = "=1.0.28"
chrono = "=0.4.45"
serde = { version = "=1.0.229", features = ["derive"] }
serde_yaml = "=0.9.34"
clap = { version = "=4.6.7", features = ["string"] }
colored = "=3.1.1"
cli-table = "=0.5.0"
