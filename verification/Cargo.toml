[package]
name = "test_drive"
version = "0.1.0"
edition = "2021"
publish = false

[dependencies]
anyhow = "1"
clap = { version = "4", features = ["derive"] }
ui_test = "0.21"
xshell = "0.2"
