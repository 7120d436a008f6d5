[package]
name = "mecha_launcher"
version = "0.1.0"
edition = "2021"
publish = false

[dependencies]
regex = "1"
md-5 = "0.10"
sha1 = "0.10"
serde = { version = "1", features = ["derive"] }
serde_json = "1"
reqwest = { version = "0.12", default-features = false, features = ["rustls-tls"] }
tokio = { version = "1", features = ["rt-multi-thread", "macros", "sync"] }
tempfile = "3"
walkdir = "2"
zip = { version = "2", default-features = false, features = ["deflate"] }
uuid = { version = "1", features = ["v4"] }
