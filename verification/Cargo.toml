[package]
name = "thumbcache"
version = "0.1.0"
edition = "2021"
publish = false

[dependencies]
md-5 = "*"
url = "*"
image = { version = "*", default-features = false, features = ["png", "jpeg"] }
ffmpeg-next = "*"
