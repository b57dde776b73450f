[package]
name = "killsnoop"
version = "0.1.0"
edition = "2021"
publish = false

[dependencies]
anyhow = "*"
aya = { version = "*", features = ["async_tokio"] }
bytes = "*"
chrono = "*"
libc = "*"
log = "*"
tokio = { version = "*", features = ["macros", "rt-multi-thread", "signal"] }
