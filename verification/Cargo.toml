[package]
name = "co"
version = "0.3.0"
edition = "2021"
publish = false

[dependencies]
base64 = "0.22"
fs2 = "0.4"
httpdate = "1"
reqwest = { version = "0.12", default-features = false, features = ["blocking", "json", "rustls-tls"] }
rpassword = "7"
serde = { version = "1", features = ["derive"] }
serde_json = "1"
tempfile = "3"
webbrowser = "1"
