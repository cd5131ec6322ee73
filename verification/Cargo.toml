[package]
name = "arkhe"
version = "0.1.0"
edition = "2021"
publish = false

[dependencies]
blake3 = "1"
bs58 = "0.5"
subtle = "2"
uuid = { version = "1", features = ["v5"] }
git2 = { version = "0.19", default-features = false }
sha3 = "0.10"
pqcrypto-dilithium = "0.5"
pqcrypto-kyber = "0.8"
pqcrypto-traits = "0.3"
serde = { version = "1", features = ["derive"] }
serde_json = "1"
thiserror = "1"
zeroize = { version = "1", features = ["derive"] }
bincode = "1"
ndarray = "0.15"
libm = "0.2"
num-traits = "0.2"
bytemuck = "1"
js-sys = "0.3"
wasm-bindgen = "0.2"
