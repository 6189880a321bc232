[package]
name = "rshell"
version = "0.1.0"
edition = "2021"
publish = false

[dependencies]
clap = "4"
itertools = "*"
signal-hook = "0.3"
termion = "*"
tokio = { version = "1", features = ["fs", "io-std", "io-util", "macros", "process", "rt-multi-thread", "sync", "time"] }
