[package]
name = "ferricast"
version = "0.1.0"
edition = "2021"
publish = false

[dependencies]
aes = "0.8"
ash = "0.38"
async-trait = "0.1"
bytes = "1"
chacha20poly1305 = "0.10"
ctr = "0.9"
drm-fourcc = "2"
ed25519-dalek = { version = "2", features = ["rand_core"] }
hap-tlv8 = "*"
hex = "0.4"
hkdf = "0.12"
image = { version = "0.25", default-features = false, features = ["png"] }
libc = "0.2"
mdns-sd = "0.13"
num-bigint = "0.4"
num-traits = "0.2"
prost = "0.13"
rand = "0.8"
rcgen = { version = "0.13", default-features = false, features = ["ring", "pem"] }
rustls = { version = "0.23", default-features = false, features = ["ring", "std", "tls12", "logging"] }
serde = { version = "1", features = ["derive"] }
serde_json = "1"
sha2 = "0.10"
tokio = { version = "1", features = ["full"] }
tokio-rustls = { version = "0.26", default-features = false, features = ["ring", "tls12", "logging"] }
uuid = { version = "1", features = ["v4"] }
wayland-client = "0.31"
wayland-protocols = { version = "0.32", features = ["client", "staging", "unstable"] }
wayland-protocols-wlr = { version = "0.3", features = ["client"] }
x25519-dalek = { version = "2", features = ["static_secrets"] }
