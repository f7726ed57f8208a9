[package]
name = "tuneitverse"
version = "0.1.0"
edition = "2021"
publish = false

[dependencies]
sha2 = "0.10"
serde = { version = "1", features = ["derive"] }
serde_json = "1"
quick-xml = { version = "*", features = ["serialize"] }
serialport = { version = "4", default-features = false }
libloading = "0.8"
