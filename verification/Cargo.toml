[package]
name = "wikid"
version = "0.1.0"
edition = "2021"
publish = false

[dependencies]
unicode-width = "=0.2.3"
serde = { version = "=1.0.229", features = ["derive"] }
serde_json = "=1.0.154"
toml = "=0.8.23"
chrono = "=0.4.45"
ureq = { version = "=2.12.1", features = ["json"] }
fastrand = "=2.5.0"
tl = "0.7"
