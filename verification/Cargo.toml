[package]
name = "cockpit_tools"
version = "0.1.0"
edition = "2021"
publish = false

[dependencies]
serde = { version = "1", features = ["derive"] }
serde_json = "1"
base64 = "0.22"
md5 = "0.7"
url = "2"
toml_edit = "0.22"
chrono = "0.4"
dirs = "5"
sha2 = "0.10"
uuid = { version = "1", features = ["v4"] }
libc = "0.2"
