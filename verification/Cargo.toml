[package]
name = "book_info"
version = "0.1.0"
edition = "2021"
publish = false

[dependencies]
archive-reader = "*"
clap = { version = "4", features = ["derive"] }
lopdf = "*"
serde = { version = "1", features = ["derive"] }
serde_json = "1"
sha1 = "0.10"
walkdir = "2"
