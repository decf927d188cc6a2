[package]
name = "hamlog"
version = "0.1.0"
edition = "2021"
publish = false

[dependencies]
uuid = { version = "*", features = ["v4"] }
chrono = { version = "*", features = ["serde"] }
serde = "*"
serde_derive = "*"
