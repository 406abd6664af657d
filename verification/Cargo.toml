[package]
name = "rumqtt"
version = "0.1.0"
edition = "2021"
publish = false

[dependencies]
crossbeam-channel = "=0.5.17"
mqtt3 = "=0.1.4"
openssl = "*"
