[package]
name = "struart"
version = "0.1.0"
edition = "2021"

[dependencies]
serial2 = "0.2"
thiserror = "1"
