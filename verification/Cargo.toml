[package]
name = "static_server"
version = "0.1.0"
edition = "2021"
publish = false

[dependencies]
actix-web = "4"
mime_guess = "2"
