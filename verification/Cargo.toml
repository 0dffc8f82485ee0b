[package]
name = "relique"
version = "0.1.0"
edition = "2021"
publish = false

[dependencies]
librsync = "*"
uuid = { version = "*", features = ["v4"] }
chrono = "*"
serde = { version = "*", features = ["derive"] }
toml = "*"
walkdir = "*"
exitcode = "*"
