[package]
name = "particles"
version = "0.1.0"
edition = "2021"
publish = false

[dependencies]
crossbeam = "=0.8.5"
rand = "=0.8.8"
async-std = "=1.13.2"
clap = { version = "4", features = ["derive"] }
