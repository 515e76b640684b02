[package]
name = "laminar"
version = "0.1.0"
edition = "2021"
publish = false

[dependencies]
base64 = "=0.23.1"
sha2 = "=0.11.0"
uuid = { version = "=1.27.0", features = ["v5"] }
chrono = "=0.4.45"
qrcode = "=0.14.1"
image = { version = "=0.25.10", default-features = false, features = ["png"] }
ur = "=0.5.2"
zcash_address = "=0.13.0"
clap = { version = "=4.6.7", features = ["derive"] }
csv = "=1.4.0"
serde = { version = "=1.0.229", features = ["derive"] }
serde_json = "=1.0.151"
colored = "=3.1.1"
comfy-table = "=8.0.1"
indicatif = "=0.18.6"
is-terminal = "=0.4.17"
aes-gcm = "=0.11.1"
argon2 = "=0.6.0"
zeroize = "=1.9.1"
getrandom = "*"

[dev-dependencies]
rqrr = "*"
