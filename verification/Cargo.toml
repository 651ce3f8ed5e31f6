[package]
name = "herdr-reviewr"
version = "0.1.0"
edition = "2021"
publish = false

[dependencies]
unicode-width = "*"
image = { version = "*", default-features = false, features = ["png", "jpeg", "gif", "bmp", "webp", "ico", "tiff"] }
serde = { version = "*", features = ["derive"] }
serde_json = "*"
anyhow = "*"
ec4rs = "*"
dirs = "*"
