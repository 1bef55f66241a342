[package]
name = "carrier"
version = "1.0.0"
edition = "2021"
publish = false

[dependencies]
base64 = "0.22"
dark-light = "1"
notify-rust = "4"
open = "5"
serde = { version = "1", features = ["derive"] }
serde_json = "1"
tokio = { version = "1", features = ["time"] }
url = "2"
