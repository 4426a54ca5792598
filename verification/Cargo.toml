[package]
name = "now_importer"
version = "0.1.0"
edition = "2021"
publish = false

[dependencies]
url = "=2.5.8"
sha1 = "=0.11.0"
base64 = "=0.23.1"
serde = { version = "=1.0.229", features = ["derive"] }
serde_json = "=1.0.151"
log = "=0.4.34"
reqwest = { version = "=0.13.5", default-features = false, features = ["blocking"] }
clap = "=4.6.7"
dirs = "=7.0.0"
simplelog = "=0.12.2"
