[package]
name = "decoyssh"
version = "0.1.0"
edition = "2021"
publish = false

[dependencies]
fastrand = "*"
async-std = "*"
clap = { version = "*", features = ["derive", "env"] }
anyhow = "*"
async-signals = "*"
futures-util = "*"
once_cell = "*"
