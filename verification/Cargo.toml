[package]
name = "file_explorer"
version = "0.1.0"
edition = "2021"
publish = false

[dependencies]
notify = "=8.2.0"
notify-debouncer-full = "=0.7.0"
encoding_rs = "=0.8.42"
chrono = { version = "=0.4.45", features = ["serde"] }
dirs = "=7.0.0"
open = "=5.4.4"
serde = { version = "=1.0.229", features = ["derive"] }
