[package]
name = "eis_bridge"
version = "0.1.0"
edition = "2021"
publish = false

[dependencies]
anyhow = "=1.0.104"
calloop = "=0.14.5"
futures-executor = "=0.3.34"
libc = "=0.2.190"
reis = { version = "=0.7.1", features = ["calloop"] }
tracing = "=0.1.44"
zbus = "=5.19.0"
