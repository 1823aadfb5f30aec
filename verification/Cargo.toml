[package]
name = "email_auth"
version = "0.1.0"
edition = "2021"
publish = false

[dependencies]
hex = "0.4"
jni = { version = "0.21", default-features = false }

[dev-dependencies]
serde_json = "1"
