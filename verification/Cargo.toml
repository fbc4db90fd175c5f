[package]
name = "xbee_rust_modem_library"
version = "0.1.0"
edition = "2021"
publish = false

[dependencies]
aes-gcm = { version = "=0.10.3", features = ["heapless"] }
ed25519-dalek = { version = "=2.2.0", features = ["rand_core"] }
x25519-dalek = "=2.0.1"
hkdf = "=0.12.4"
sha2 = "=0.10.9"
base64ct = { version = "=1.8.3", features = ["alloc"] }
heapless = { version = "=0.7.17", features = ["serde"] }
rand_core = { version = "=0.6.4", features = ["getrandom"] }
postcard = { version = "=1.1.3", features = ["use-std"] }
serde = { version = "=1.0.229", features = ["derive"] }
serialport = { version = "=4.10.1", default-features = false }
