[package]
name = "bastion-executor"
version = "0.1.0"
edition = "2021"
publish = false

[dependencies]
crossbeam-channel = "0.5"
lightproc = "0.3"
lazy_static = "1.4"
once_cell = "1"
tokio = { version = "1", default-features = false, features = ["rt", "rt-multi-thread"] }
tracing = "0.1"
