[package]
name = "task_console"
version = "0.1.0"
edition = "2021"
publish = false

[dependencies]
tokio = { version = "*", features = ["sync", "rt-multi-thread", "macros", "time"] }
ratatui = "*"
tracing = "*"
tracing-appender = "*"
tracing-subscriber = "*"
console-subscriber = "*"
