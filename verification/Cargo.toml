[package]
name = "async-ch"
version = "0.1.0"
edition = "2021"
publish = false

[dependencies]
futures-lite = "*"

[dev-dependencies]
waker-fn = "*"
