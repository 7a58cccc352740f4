[package]
name = "addrnorm"
version = "0.1.0"
edition = "2021"
publish = false

[dependencies]
libc = "=0.2.190"
lru = { version = "=0.18.5", default-features = false }
