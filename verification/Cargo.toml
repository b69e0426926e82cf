[package]
name = "solnas_client"
version = "0.1.0"
edition = "2021"
publish = false

[dependencies]
egui = { version = "0.27", default-features = false, features = ["default_fonts"] }
image = { version = "0.25", default-features = false, features = ["png", "jpeg"] }
reqwest = { version = "0.12", default-features = false, features = ["blocking", "json", "multipart", "rustls-tls"] }
serde = { version = "1", features = ["derive"] }
serde_json = "1"
