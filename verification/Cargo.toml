[package]
name = "telemetry_core"
version = "0.1.0"
edition = "2021"
publish = false

[dependencies]
foxglove = "=0.29.0"
base64 = "*"
tracing = "*"
