[package]
name = "x86"
version = "0.1.1"
edition = "2021"
publish = false

[dependencies]
hex = "0.4"
sha2 = "0.10"
serde = { version = "1", features = ["derive"] }
serde_json = "1"
thiserror = "1"
ureq = "2"
