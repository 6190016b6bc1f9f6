[package]
name = "qr2term"
version = "0.1.0"
edition = "2021"
publish = false

[dependencies]
crossterm = "*"
qrcode = { version = "*", default-features = false }
