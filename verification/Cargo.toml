[package]
name = "jevi"
version = "0.2.0"
edition = "2021"
publish = false

[dependencies]
serde_json = { version = "=1.0.154", features = ["preserve_order", "float_roundtrip"] }
clap = { version = "=4.6.7", features = ["derive"] }
ureq = { version = "=3.5.1", features = ["json"] }

[dev-dependencies]
serde = "=1.0.229"
