[package]
name = "hotkeyd"
version = "0.1.0"
edition = "2021"
publish = false

[dependencies]
regex = "1"
xcb = "0.10"
xcb-util = { version = "0.4", features = ["keysyms"] }
x11 = "2"
notify-rust = "4"
