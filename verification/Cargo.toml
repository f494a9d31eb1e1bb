[package]
name = "theme_fader"
version = "0.1.0"
edition = "2021"
publish = false

[dependencies]
futures = "0.3"
chrono = "0.4"
serde = { version = "1", features = ["derive"] }
serde_json = "1"
