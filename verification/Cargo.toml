[package]
name = "pq_channel"
version = "0.1.0"
edition = "2021"

[dependencies]
aes = "0.8"
cbc = "0.1"
oqs = "*"
rand = "0.9"
sha3 = "0.10"
thiserror = "2"
