[package]
name = "scheme_reader"
version = "0.1.0"
edition = "2021"
publish = false

[dependencies]
nom = { version = "5", default-features = false, features = ["std"] }
rustyline = "9.1"
