[package]
name = "soundpool"
version = "0.1.0"
edition = "2021"
publish = false

[dependencies]
zip = { version = "=8.6.0", default-features = false, features = ["deflate-flate2-zlib-rs"] }
rand = "=0.10.3"
sys-info = "=0.9.1"
rodio = "=0.22.2"
