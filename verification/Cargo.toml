[package]
name = "epubsync"
version = "0.1.0"
edition = "2021"
publish = false

[dependencies]
anyhow = "1"
image = { version = "0.25", default-features = false, features = ["jpeg", "png", "gif", "webp"] }
rusqlite = { version = "*", features = ["bundled"] }
tempfile = "3"
zip = { version = "*", default-features = false, features = ["deflate"] }
