[package]
name = "fwd_deck"
version = "0.1.0"
edition = "2021"
publish = false

[dependencies]
shlex = "=1.3.0"
uuid = { version = "=1.29.0", features = ["v4"] }
unicode-width = "=0.2.3"
serde = { version = "=1.0.229", features = ["derive"] }
toml = "=1.1.8"
serde_json = "=1.0.154"
libc = "=0.2.191"
clap = { version = "=4.6.7", features = ["derive"] }
clap_complete = "4"
