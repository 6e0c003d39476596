[package]
name = "edge_images"
version = "0.1.0"
edition = "2021"
publish = false

[dependencies]
base64 = "0.13"
sha1 = "0.10"
mime_guess = "2"
image = { version = "0.24", default-features = false, features = ["gif", "jpeg", "png", "bmp", "webp"] }
serde = { version = "1", features = ["derive"] }
serde_json = "1"
futures = "0.3"
worker = "*"
aws-sdk-s3 = { version = "1", default-features = false, features = ["rt-tokio"] }
