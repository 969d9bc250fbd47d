[package]
name = "pass_sys"
version = "0.2.0"
edition = "2021"
publish = false

[dependencies]
gpgme = "0.11"
tempfile = "3"
zeroize = "1"
