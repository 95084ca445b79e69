[package]
name = "odata_edmx"
version = "0.1.0"
edition = "2021"
publish = false

[dependencies]
quick-xml = { version = "*", features = ["serialize"] }
chrono = { version = "*", default-features = false, features = ["std", "serde"] }
serde = { version = "*", features = ["derive"] }
