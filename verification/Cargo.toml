[package]
name = "stderrlog"
version = "0.1.0"
edition = "2021"
publish = false

[dependencies]
chrono = "0.4"
log = { version = "0.4", features = ["std"] }
termcolor = "1"
thread_local = "1"
