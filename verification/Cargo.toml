[package]
name = "timer"
version = "0.1.0"
edition = "2021"
publish = false

[dependencies]
clap = { version = "4", features = ["derive"] }
pancurses = "0.17"
rodio = { version = "0.17", default-features = false, features = ["wav"] }
