[package]
name = "microscope_viewer"
version = "0.1.0"
edition = "2021"
publish = false

[dependencies]
reqwest = { version = "0.12", default-features = false, features = ["blocking", "multipart", "json", "rustls-tls"] }
rfd = "0.15"
serde = { version = "1", features = ["derive"] }
