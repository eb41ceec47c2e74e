[package]
name = "zkbrowse"
version = "0.1.0"
edition = "2021"
publish = false

[dependencies]
zookeeper = "*"
termion = "1"
tui = "0.6"
log = "0.4"
env_logger = "*"
failure = "0.1"
