[package]
name = "dir_server"
version = "0.1.0"
edition = "2021"
publish = false

[dependencies]
futures = "0.1"
hyper = "0.11"
mime_guess = "2"
percent-encoding = "1"
tera = "0.11"
unicase = "2"
