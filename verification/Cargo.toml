[package]
name = "transciphering"
version = "0.1.0"
edition = "2021"
publish = false

[dependencies]
rand = "=0.8.8"
aes = "=0.8.4"
cbc = { version = "=0.1.2", features = ["alloc"] }
camellia = "=0.1.0"
sha2 = "0.10"
ark-bls12-381 = "=0.4.0"
ark-groth16 = "=0.4.0"
ark-r1cs-std = "=0.4.0"
ark-relations = "=0.4.0"
ark-serialize = "=0.4.2"
ark-snark = "=0.4.0"
ark-std = "=0.4.0"
plonky2 = "*"

[dev-dependencies]
chacha20 = "=0.9.1"
