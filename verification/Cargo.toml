[package]
name = "hehir"
version = "0.1.0"
edition = "2021"
publish = false

[dependencies]
bytes = "1"
http = "1"
http-body-util = "0.1"
percent-encoding = "2"
url = "2"
worker = { version = "*", features = ["http"] }
