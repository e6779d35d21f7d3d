[package]
name = "placement_xlsx"
version = "0.1.0"
edition = "2021"
publish = false

[dependencies]
umya-spreadsheet = "*"
clap = { version = "*", features = ["derive"] }
