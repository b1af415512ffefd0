[package]
name = "reader_library"
version = "0.1.0"
edition = "2021"
publish = false

[dependencies]
chrono = { version = "0.4", default-features = false, features = ["clock"] }
dirs = "5"
keyring = "3"
rfd = "0.15"
serde = { version = "1", features = ["derive"] }
serde_json = "1"
url = "2"
walkdir = "2"
