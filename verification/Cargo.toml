[package]
name = "bulk_mailer"
version = "0.1.0"
edition = "2021"
publish = false

[dependencies]
lettre = "0.11"
uuid = { version = "1", features = ["v4"] }
serde = { version = "1", features = ["derive"] }
serde_json = "1"
config = { version = "0.14", default-features = false, features = ["toml"] }
eframe = { version = "0.29", default-features = false, features = ["glow", "default_fonts", "x11"] }
rfd = { version = "0.15", default-features = false, features = ["xdg-portal", "tokio"] }
