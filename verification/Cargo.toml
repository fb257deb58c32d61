[package]
name = "blueflame"
version = "0.1.0"
edition = "2021"
publish = false

[dependencies]
url = "2"
regex = "1"
getrandom = "0.2"
percent-encoding = "2"
scraper = "*"
serde = { version = "1", features = ["derive"] }
serde_json = "1"
