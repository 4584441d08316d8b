[package]
name = "wikisearch"
version = "0.1.0"
edition = "2021"
publish = false

[dependencies]
percent-encoding = "*"
unescape = "*"
reqwest = { version = "*", features = ["blocking"] }
rusqlite = "*"
