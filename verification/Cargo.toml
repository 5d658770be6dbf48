[package]
name = "mtpoe"
version = "0.1.1"
edition = "2021"
publish = false

[dependencies]
clap = { version = "4", features = ["derive"] }
crc = "3"
libc = "0.2"
nix = { version = "0.29", features = ["ioctl"] }
serde = { version = "1", features = ["derive"] }
serde_json = "1"
thiserror = "1"
