[package]
name = "mcub"
version = "0.2.0"
edition = "2021"
publish = false

[dependencies]
chrono = "0.4"
glob = "0.3"
libc = "0.2"
nix = { version = "0.29", features = ["fs", "ioctl", "net", "poll", "process", "signal", "term"] }
serde = { version = "1", features = ["derive"] }
serde_json = "1"
thiserror = "1"
udev = "0.9"
