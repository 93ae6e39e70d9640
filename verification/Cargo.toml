[package]
name = "site_crawler"
version = "0.1.0"
edition = "2021"
publish = false

[dependencies]
csv = "1"
rayon = "1"
reqwest = { version = "0.12", features = ["blocking"] }
scraper = "*"
