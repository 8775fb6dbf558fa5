[package]
name = "mqtt_engine"
version = "0.1.0"
edition = "2021"
publish = false

[dependencies]
either = "=1.18.0"
ntex-codec = "=1.2.1"
ntex-bytes = "*"
