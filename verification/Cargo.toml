[package]
name = "ninety_two"
version = "0.1.0"
edition = "2021"
publish = false

[dependencies]
chrono = { version = "=0.4.45", default-features = false, features = ["clock", "std"] }
uuid = { version = "=1.27.0", features = ["v4"] }
serde = { version = "=1.0.229", features = ["derive"] }
serde_json = "=1.0.151"
mysql = { version = "=28.0.3", default-features = false, features = ["minimal-rust", "derive", "buffer-pool", "chrono"] }
rouille = { version = "=3.6.2", default-features = false }
tera = { version = "=2.4.0", default-features = false }
thiserror = "=2.0.21"
