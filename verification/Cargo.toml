[package]
name = "terminal_provision"
version = "0.1.0"
edition = "2021"
publish = false

[dependencies]
shlex = "=1.2.1"
anyhow = "=1.0.104"
log = "=0.4.34"
