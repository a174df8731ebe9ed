[package]
name = "catalog_watch"
version = "0.1.0"
edition = "2021"
publish = false

[dependencies]
html-escape = "0.2"
json = "0.12"
regex = "1"
reqwest = { version = "0.12", default-features = false, features = ["blocking", "rustls-tls"] }
similar = "2"
termion = "*"
