[package]
name = "rslogo"
version = "0.1.0"
edition = "2021"
publish = false

[dependencies]
nom = "7"
unsvg = "*"
clap = { version = "4", features = ["derive"] }
