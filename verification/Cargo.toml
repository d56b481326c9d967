[package]
name = "lang_judge"
version = "0.1.0"
edition = "2021"
publish = false

[dependencies]
fast_log = "*"
log = "0.4"
serde = { version = "1.0", features = ["derive"] }
tempfile = "3"
toml = "0.8"
uuid = { version = "1", features = ["serde"] }
