[package]
name = "radsurgery"
version = "0.1.0"
edition = "2021"
publish = false

[dependencies]
libradicl = "*"
anyhow = "*"
clap = { version = "*", features = ["derive"] }
indicatif = "*"
needletail = "*"
tracing = "*"
tracing-subscriber = { version = "*", features = ["env-filter"] }
