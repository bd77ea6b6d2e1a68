[package]
name = "bwbio"
version = "0.1.0"
edition = "2021"
publish = false

[dependencies]
aes = "0.8"
base64 = "0.22"
cbc = { version = "0.1", features = ["alloc"] }
hmac = "0.12"
rand = "0.8"
rsa = "0.9"
serde_json = "1"
sha1 = "0.10"
sha2 = "0.10"
subtle = "2"
