[package]
name = "sqlx_core"
version = "0.1.0"
edition = "2021"
publish = false

[dependencies]
async-stream = "0.2"
base64 = "0.12"
either = "1"
futures-channel = "0.3"
futures-core = "0.3"
hmac = "0.7"
rand = "0.7"
sha2 = "0.8"
stringprep = "0.1"
