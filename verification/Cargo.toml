[package]
name = "mqtt_broker"
version = "0.1.0"
edition = "2021"
publish = false

[dependencies]
failure = "=0.1.8"
hyper = "=0.11.27"
serde_json = "=1.0.154"
