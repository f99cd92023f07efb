[package]
name = "xunlie"
version = "0.1.0"
edition = "2021"
publish = false

[dependencies]
serde = { version = "1", features = ["derive"] }
serde_json = "1"
sha2 = "0.10"
thiserror = "1"
clap = { version = "4", features = ["derive"] }
tempfile = "3"

[dev-dependencies]
serde_json = "1"
