[package]
name = "notes"
version = "0.1.0"
edition = "2021"
publish = false

[dependencies]
pulldown-cmark = { version = "0.8", default-features = false }
regex = "1"
shellexpand = "2"
