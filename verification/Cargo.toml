[package]
name = "moderated_records"
version = "0.1.0"
edition = "2021"
publish = false

[dependencies]
email_address = "*"
image = "*"
