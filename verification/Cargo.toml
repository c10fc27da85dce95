[package]
name = "pinentry_keepassxc"
version = "0.1.0"
edition = "2021"
publish = false

[dependencies]
base64 = "0.13"
crypto_box = "0.7"
directories = "5"
json = "0.12"
log = "0.4"
rand = "0.8"
xsalsa20poly1305 = "0.8"
