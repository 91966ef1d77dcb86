[package]
name = "classroom_fanout"
version = "0.1.0"
edition = "2021"
publish = false

[dependencies]
google-classroom1 = "5"
oauth2 = "4"
reqwest = { version = "0.11", default-features = false, features = ["rustls-tls"] }
tera = "1"
tokio = { version = "1", features = ["full"] }
futures = "0.3"
serde = { version = "1", features = ["derive"] }
serde_json = "1"
actix-web = "4"
actix-rt = "2"
chrono = "0.4"
lazy_static = "1"
