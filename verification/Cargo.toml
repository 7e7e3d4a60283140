[package]
name = "mendax"
version = "0.1.0"
edition = "2021"
publish = false

[dependencies]
clap = { version = "4", features = ["derive"] }
crossterm = "0.27"
pretty-duration = "0.1"
rand = "0.8"
rhai = "1"
subprocess = "0.2"
thiserror = "1"
