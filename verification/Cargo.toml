[package]
name = "bank_system"
version = "0.1.0"
edition = "2021"
publish = false

[dependencies]
anyhow = "1"
time = "0.3"
