[package]
name = "rfd_api"
version = "0.1.0"
edition = "2021"
publish = false

[dependencies]
hex = "=0.4.3"
uuid = { version = "=1.27.0", features = ["v4"] }
chrono = "=0.4.45"
oauth2 = { version = "=5.0.0", default-features = false }
argon2 = { version = "=0.5.3", features = ["std"] }
tabwriter = "=1.4.1"
textwrap = "=0.16.4"
