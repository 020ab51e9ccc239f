[package]
name = "sgx_ra"
version = "0.1.0"
edition = "2021"
publish = false

[dependencies]
aes = "=0.8.4"
cmac = "=0.7.2"
ring = "=0.16.20"
x509-parser = "=0.16.0"
base64 = "=0.13.1"
hex = "=0.4.3"
percent-encoding = "=2.3.2"
regex = "=1.11.3"
serde = { version = "=1.0.229", features = ["derive"] }
serde_json = "=1.0.151"
http = "=0.2.12"
hyper = { version = "=0.14.32", features = ["client", "http1", "tcp"] }
hyper-tls = "=0.5.0"
tokio = { version = "=1.53.2", features = ["full"] }
aesm-client = "=0.6.3"
sgx-isa = "=0.4.1"
sgxs = "=0.7.4"
