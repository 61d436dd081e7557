[package]
name = "rabbit_digger"
version = "0.1.0"
edition = "2021"
publish = false

[dependencies]
socks5-protocol = "=0.3.5"
sha2 = "=0.11.1"
hex = "=0.4.3"
serde = { version = "=1.0.229", features = ["derive"] }
serde_json = "=1.0.154"
libc = "=0.2.191"
