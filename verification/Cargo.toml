[package]
name = "nayan"
version = "0.1.0"
edition = "2021"
publish = false

[dependencies]
serde = { version = "1", features = ["derive"] }
serde_json = "1"
rusqlite = { version = "*", features = ["bundled"] }
reqwest = { version = "*", default-features = false, features = ["json", "rustls-tls"] }
arboard = "3"
cocoa = "*"
objc = "0.2"
core-graphics = "*"
