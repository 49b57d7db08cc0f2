[package]
name = "emogen"
version = "0.1.0"
edition = "2021"
publish = false

[dependencies]
image = { version = "=0.23.14", default-features = false, features = ["png", "jpeg", "gif", "ico"] }
imageproc = "=0.22.0"
rusttype = "=0.9.3"
urlencoding = "=2.1.3"
worker = "=0.8.7"
