[package]
name = "attest"
version = "0.1.0"
edition = "2021"
publish = false

[dependencies]
sha2 = "=0.10.9"
object = "=0.39.1"
authenticode = { version = "=0.6.0", features = ["object"] }
flate2 = "=1.1.10"
tar = "=0.4.46"
fatfs = "=0.3.6"
x509-parser = { version = "=0.18.1", features = ["verify"] }
rsa = "=0.9.10"
hex = "=0.4.3"
base64 = "=0.23.1"
pem-rfc7468 = { version = "=0.7.0", features = ["alloc"] }
serde = { version = "=1.0.229", features = ["derive"] }
serde_json = "=1.0.154"
prost = "=0.14.4"
ureq = "=3.5.1"
clap = { version = "=4.6.7", features = ["derive"] }
anyhow = "=1.0.104"
