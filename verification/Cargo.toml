[package]
name = "notes"
version = "0.1.0"
edition = "2021"
publish = false

[dependencies]
anyhow = "*"
chrono = "*"
colored = "*"
inquire = { version = "*", features = ["date", "editor"] }
ptree = "*"
