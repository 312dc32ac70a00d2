[package]
name = "pleaser"
version = "0.1.0"
edition = "2021"
publish = false

[dependencies]
chrono = "0.4"
getopts = "0.2"
libc = "0.2"
nix = { version = "0.30", features = ["fs", "hostname", "process", "signal", "term", "time", "user"] }
pam = "0.7"
rand = "0.8"
regex = "1"
rpassword = "7"
syslog = "6"
uzers = "0.12"
