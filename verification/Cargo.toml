[package]
name = "skyd"
version = "0.1.0"
edition = "2021"
publish = false

[dependencies]
rand = "=0.8.8"
skytable = { version = "=0.7.5", default-features = false, features = ["dbg"] }
