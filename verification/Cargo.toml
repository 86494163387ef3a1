[package]
name = "lot"
version = "0.1.0"
edition = "2021"
publish = false

[dependencies]
regex = "1"
serde = { version = "1", features = ["derive"] }
serde_json = "1"
sha2 = "0.10"
base64 = "0.22"
ureq = { version = "2", features = ["json"] }
clap = { version = "4", features = ["derive"] }
