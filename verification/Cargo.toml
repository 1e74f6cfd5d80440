[package]
name = "rusti_cal"
version = "1.1.0"
edition = "2021"
publish = false

[dependencies]
ansi_term = "0.12"
argh = "0.1"
chrono = "0.4"
locale_config = "0.3"
pure-rust-locales = "*"
unicode-width = "*"
