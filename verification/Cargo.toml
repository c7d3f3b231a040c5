[package]
name = "xdp_check"
version = "0.1.0"
edition = "2021"
publish = false

[dependencies]
anyhow = "*"
caps = "*"
clap = { version = "*", features = ["derive"] }
colored = "*"
env_logger = "*"
libc = "*"
nix = { version = "*", features = ["feature", "resource", "user"] }
serde = { version = "*", features = ["derive"] }
serde_json = "*"
