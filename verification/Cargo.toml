[package]
name = "muxed"
version = "0.1.0"
edition = "2021"
publish = false

[dependencies]
atty = "0.2"
dirs = "6"
libc = "0.2"
rand = "0.9"
regex = "1"
serde = { version = "1", features = ["derive"] }
serde_json = "1"
serde-saphyr = "*"
sysinfo = "0.37"
