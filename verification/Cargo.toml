[package]
name = "xivpf"
version = "0.1.0"
edition = "2021"
publish = false

[dependencies]
scraper = "*"
regex = "*"
tokio = { version = "1", default-features = false, features = ["rt-multi-thread", "time", "macros"] }
reqwest = { version = "0.11", default-features = false }
poise = "0.2"
sqlx = { version = "0.6", default-features = false, features = ["sqlite", "runtime-tokio-rustls"] }
