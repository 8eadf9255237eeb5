[package]
name = "porep_verifier"
version = "0.1.0"
edition = "2021"
publish = false

[dependencies]
sha2 = "0.10"
blake2b_simd = "1"
rand_chacha = "0.3"
rand = "0.8"
hex = "0.4"
ark-bls12-381 = "=0.3.0"
ark-groth16 = "=0.3.0"
ark-serialize = "=0.3.0"
ark-ff = "=0.3.0"
serde = { version = "1", features = ["derive"] }
serde_json = "1"
schemars = "0.8"
thiserror = "1"
base64 = "0.21"
anyhow = "1"
cosmwasm-std = "1"
cosmwasm-storage = "1"
cw-storage-plus = "1"
cosmwasm-schema = "1"

[dev-dependencies]
storage-proofs-core = { version = "=19.1.0", default-features = false }
storage-proofs-porep = { version = "=19.1.0", default-features = false }
filecoin-hashers = { version = "=14.1.0", default-features = false, features = ["poseidon", "sha256"] }
