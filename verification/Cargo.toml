[package]
name = "interactive_credential"
version = "0.1.0"
edition = "2021"
publish = false

[dependencies]
oauth2 = { version = "5", default-features = false }
time = "0.3"
tracing = "0.1"
async-process = "2"
