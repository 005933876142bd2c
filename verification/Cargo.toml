[package]
name = "rgbmon"
version = "0.1.0"
edition = "2021"
publish = false

[dependencies]
chrono = "*"
clap = { version = "*", features = ["derive"] }
colored = "*"
cpu-monitor = "*"
daemonize = "*"
lazy_static = "*"
log = "*"
signal-hook = "*"
syslog = "*"
