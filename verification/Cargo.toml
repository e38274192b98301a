[package]
name = "nockster_fw"
version = "0.1.0"
edition = "2021"
publish = false

[dependencies]
aes-gcm = "0.10"
pbkdf2 = "0.12"
hmac = "0.12"
sha2 = "0.10"
getrandom = "0.2"
zeroize = "1"
heapless = "0.8"
cobs = "0.2"
postcard = { version = "1", features = ["alloc"] }
serde = { version = "1", features = ["derive"] }
k256 = { version = "0.13", features = ["ecdsa"] }
bip32 = "0.5"
ripemd = "0.1"
critical-section = { version = "1", features = ["std"] }
embedded-graphics = "0.8"
embedded-storage = "0.3"
usb-device = "0.3"
usbd-hid = "0.8"
nb = "1"
