[package]
name = "eventlog"
version = "0.1.0"
edition = "2021"
publish = false

[dependencies]
tracing = "=0.1.44"
tracing-subscriber = "=0.3.23"
windows = { version = "=0.58.0", features = ["Win32_Foundation", "Win32_System_EventLog"] }
windows-result = "=0.2.0"
