[package]
name = "update_generator"
version = "0.1.0"
edition = "2021"
publish = false

[dependencies]
chrono = "*"
config = { version = "*", default-features = false, features = ["toml"] }
encoding_rs = "*"
fs_extra = "*"
log = "*"
regex = "*"
sciter-rs = "*"
simplelog = "*"
