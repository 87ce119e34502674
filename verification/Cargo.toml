[package]
name = "concealed_schnorr"
version = "0.1.0"
edition = "2021"
publish = false

[dependencies]
ark-bn254 = "0.5"
ark-crypto-primitives = { version = "0.5", features = ["sponge", "r1cs"] }
ark-ec = "0.5"
ark-ff = "0.5"
ark-groth16 = "0.5"
ark-r1cs-std = "0.5"
ark-relations = "0.5"
ark-snark = "0.5"
ark-std = "0.5"
light-poseidon = "0.3"
rand = "0.8"
