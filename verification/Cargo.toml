[package]
name = "libzkp"
version = "0.1.0"
edition = "2021"
publish = false

[dependencies]
bulletproofs = "5"
curve25519-dalek = "4"
merlin = "3"
rand = "0.8"
sha2 = "0.10"
rayon = "1"
ark-bn254 = "0.4"
ark-crypto-primitives = { version = "0.4", features = ["crh", "r1cs"] }
ark-ff = "0.4"
ark-groth16 = "0.4"
ark-r1cs-std = "0.4"
ark-relations = "0.4"
ark-serialize = "0.4"
ark-snark = "0.4"
ark-std = "0.4"
winterfell = "0.11"
winter-utils = "0.11"
