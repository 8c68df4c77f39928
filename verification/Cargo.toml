[package]
name = "karukan"
version = "0.1.0"
edition = "2021"
publish = false

[dependencies]
unicode-normalization = "0.1"
chrono = "0.4"
serde = { version = "1", features = ["derive"] }
thiserror = "*"
