[package]
name = "neguse_taglib"
version = "0.1.0"
edition = "2021"
publish = false

[dependencies]
base64 = "0.13"
crc = "1.8"
encoding = "0.2"
chrono = { version = "0.4", default-features = false, features = ["std"] }
