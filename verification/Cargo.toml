[package]
name = "code_report_rs"
version = "0.1.0"
edition = "2021"
publish = false

[dependencies]
docx-rs = "*"
walkdir = "*"
clap = { version = "*", features = ["derive"] }
