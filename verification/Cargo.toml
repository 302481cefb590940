[package]
name = "devp2p"
version = "0.1.0"
edition = "2021"
publish = false

[dependencies]
aes = "=0.8.4"
anyhow = "=1.0.104"
async-trait = "=0.1.92"
bytes = "=1.12.1"
ctr = "=0.9.2"
etcommon-bigint = "*"
ethereum-types = "=0.14.1"
futures = "=0.3.34"
hmac = "=0.12.1"
libsecp256k1 = "=0.7.2"
log = "=0.4.34"
parking_lot = "=0.12.5"
rand = "=0.8.8"
secp256k1 = "=0.28.2"
sha2 = "=0.10.9"
sha3 = "=0.10.9"
tokio = { version = "=1.54.1", features = ["rt", "net", "time", "io-util"] }
tokio-util = { version = "=0.7.20", features = ["codec"] }
tracing = "=0.1.44"
