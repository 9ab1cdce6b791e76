[package]
name = "ashdaemon"
version = "0.1.0"
edition = "2021"
publish = false

[dependencies]
anyhow = "=1.0.104"
hex = "=0.4.3"
mimalloc = "=0.1.52"
sha2 = "=0.10.9"
