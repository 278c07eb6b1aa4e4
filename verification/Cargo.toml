[package]
name = "doodle_core"
version = "0.1.0"
edition = "2021"
publish = false

[dependencies]
httparse = "=1.10.1"
embedded-websocket = "=0.9.5"
