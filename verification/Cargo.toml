[package]
name = "email_rs"
version = "0.1.0"
edition = "2021"
publish = false

[dependencies]
lettre = { version = "0.11", default-features = false, features = ["smtp-transport", "builder", "rustls-tls"] }
clap = { version = "4", features = ["derive"] }
dirs = "*"
