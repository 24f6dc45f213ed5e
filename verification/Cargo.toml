[package]
name = "passcrypt"
version = "0.1.0"
edition = "2021"
publish = false

[dependencies]
aes = "0.7"
block-modes = "0.8"
base64 = "0.13"
prometheus = "0.13"
actix-web = "4"
actix-cors = "0.7"
