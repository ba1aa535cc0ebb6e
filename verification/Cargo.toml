[package]
name = "iso_updater"
version = "0.1.0"
edition = "2021"
publish = false

[dependencies]
clap = { version = "4", features = ["derive"] }
color-eyre = "*"
command-error = "*"
dirs = "*"
httpdir = "*"
ron = "*"
serde = { version = "1", features = ["derive"] }
sha2 = "0.10"
tempdir = "*"
url = "2"
