[package]
name = "launcher_mc"
version = "0.1.0"
edition = "2021"
publish = false

[dependencies]
eframe = { version = "0.29", default-features = false, features = ["glow", "default_fonts", "x11"] }
reqwest = { version = "0.12", default-features = false, features = ["blocking", "json", "rustls-tls"] }
serde_json = "1"
zip = { version = "2", default-features = false, features = ["deflate"] }
