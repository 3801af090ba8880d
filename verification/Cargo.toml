[package]
name = "sub_auto_rename"
version = "0.1.0"
edition = "2021"
publish = false

[dependencies]
anyhow = "*"
clap = { version = "*", features = ["derive"] }
colored = "*"
log = "*"
simple_logger = "*"
thiserror = "*"
