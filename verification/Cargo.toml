[package]
name = "eso_addons"
version = "0.1.0"
edition = "2021"
publish = false

[dependencies]
clap = { version = "3", features = ["derive", "cargo"] }
colored = "2"
dirs = "4"
prettytable-rs = "0.10"
regex = "1"
requestty = "*"
reqwest = { version = "0.11", default-features = false, features = ["blocking", "rustls-tls"] }
scraper = "*"
serde = { version = "1", features = ["derive"] }
tempfile = "3"
toml = "0.5"
walkdir = "2"
zip = { version = "0.6", default-features = false, features = ["deflate"] }
