[package]
name = "task_tracker"
version = "0.1.0"
edition = "2021"
publish = false

[dependencies]
colored = "2"
prettytable-rs = { version = "0.10", default-features = false }
