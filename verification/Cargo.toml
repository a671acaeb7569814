[package]
name = "mercury"
version = "0.1.0"
edition = "2021"
publish = false

[dependencies]
chrono = "0.4"
chrono-tz = "0.10"
itertools = "0.13"
yaml-rust = "0.4"
serde = { version = "1", features = ["derive"] }
serde_json = "1"
actix-web = "4"
actix-files = "0.6"
actix-rt = "2"
tera = { version = "1", default-features = false }
diesel = { version = "2", features = ["mysql", "chrono"] }
reqwest = { version = "0.12", default-features = false, features = ["blocking", "json"] }
env_logger = "0.11"
lazy_static = "1"
