[package]
name = "ex_moq"
version = "0.1.0"
edition = "2021"
publish = false

[dependencies]
anyhow = "1"
bytes = "=1.12.1"
hang = "=0.20.13"
moq-mux = "=0.9.16"
moq-native = { version = "=0.19.19", default-features = false, features = ["aws-lc-rs", "quinn"] }
moq-net = "=0.2.22"
rustler = "=0.39.0"
tokio = { version = "=1.54.1", features = ["full"] }
url = "=2.5.8"
