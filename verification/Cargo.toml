[package]
name = "anicli-es"
version = "0.1.0"
edition = "2021"
publish = false

[dependencies]
base64 = "0.13"
dialoguer = "0.11"
getopts = "0.2"
regex = "1"
ureq = "2"
