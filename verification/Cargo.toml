[package]
name = "trin"
version = "0.1.0"
edition = "2021"
publish = false

[dependencies]
clap = "=4.6.7"
discv5 = "=0.12.0"
enr = "=0.14.0"
env_logger = "=0.11.11"
log = "=0.4.34"
tokio = { version = "=1.53.2", features = ["rt-multi-thread", "macros", "time"] }
