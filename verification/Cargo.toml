[package]
name = "conjure_verification"
version = "0.1.0"
edition = "2021"
publish = false

[dependencies]
backtrace = "=0.3.77"
base64 = "=0.22.1"
http = "=1.5.0"
http-zipkin = "=1.1.0"
humantime = "=2.4.0"
rand = "=0.8.8"
serde = { version = "=1.0.229", features = ["derive"] }
serde_json = "=1.0.154"
typed-headers = "0.2"
url = "=2.5.8"
uuid = { version = "=1.29.0", features = ["v4"] }
zipkin = "=1.1.0"
