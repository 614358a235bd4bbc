[package]
name = "logs"
version = "0.1.0"
edition = "2021"
publish = false

[dependencies]
regex = "*"
chrono = "*"
strfmt = "*"
tokio = { version = "*", features = ["macros", "rt-multi-thread", "process"] }
openssh = "*"
termion = "*"
