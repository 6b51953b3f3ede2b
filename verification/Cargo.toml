[package]
name = "tatata"
version = "0.1.0"
edition = "2021"
publish = false

[dependencies]
clap = { version = "4", features = ["derive"] }
enigo = "0.2"
spin_sleep = "1"
