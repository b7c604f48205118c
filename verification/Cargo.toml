[package]
name = "scim_proto"
version = "0.1.0"
edition = "2021"
publish = false

[dependencies]
serde = { version = "=1.0.229", features = ["derive"] }
serde_json = "=1.0.151"
url = "=2.5.8"
uuid = "=1.27.0"
time = { version = "=0.3.55", features = ["parsing", "formatting"] }
base64urlsafedata = "=0.1.3"
