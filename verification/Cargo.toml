[package]
name = "sectionals"
version = "0.1.0"
edition = "2021"
publish = false

[dependencies]
chrono = { version = "0.4", features = ["serde"] }
csv = "1"
quick-xml = "0.31"
serde = { version = "1", features = ["derive"] }
zip = { version = "0.6", default-features = false, features = ["deflate"] }
