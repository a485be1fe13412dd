[package]
name = "rollup_ledger"
version = "0.1.0"
edition = "2021"
publish = false

[dependencies]
ark-crypto-primitives = { version = "0.4", features = ["crh", "merkle_tree", "signature", "r1cs"] }
ark-ec = "0.4"
ark-ed-on-bls12-381 = { version = "0.4", features = ["r1cs"] }
ark-ff = "0.4"
ark-r1cs-std = "0.4"
ark-relations = "0.4"
ark-serialize = { version = "0.4", features = ["derive"] }
ark-std = "0.4"
blake2 = "0.10"
