[package]
name = "mxu"
version = "0.1.0"
edition = "2021"
publish = false

[dependencies]
regex = "*"
chrono = "*"
libc = "*"
log = "*"
os_info = "*"
serde = { version = "*", features = ["derive"] }
tokio = { version = "*", features = ["sync", "time", "rt", "macros"] }
winsafe = "*"
