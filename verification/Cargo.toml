[package]
name = "example_runner"
version = "0.1.0"
edition = "2021"
publish = false

[dependencies]
num_cpus = "*"
clap = { version = "*", features = ["derive"] }
tokio = { version = "*", features = ["macros", "rt-multi-thread", "process", "io-util", "time", "sync"] }
