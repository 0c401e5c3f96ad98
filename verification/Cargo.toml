[package]
name = "trieve_handlers"
version = "0.1.0"
edition = "2021"
publish = false

[dependencies]
regex = "=1.13.1"
uuid = "=1.29.0"
base64 = "=0.22.1"
rust-argon2 = "=2.1.0"
rand = "=0.8.8"
chrono = "0.4"
sanitize_html = "*"
