[package]
name = "fac_test"
version = "0.1.0"
edition = "2021"
publish = false

[dependencies]
chrono = { version = "0.4", default-features = false, features = ["clock"] }
if-addrs = "*"
serde_json = "1"
socket2 = "0.5"
ssh2 = "0.9"
tiny_http = "0.12"
