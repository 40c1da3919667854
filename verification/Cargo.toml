[package]
name = "delegated_staking"
version = "0.1.0"
edition = "2021"
publish = false

[dependencies]
frame-support = "*"
frame-system = "*"
sp-runtime = "*"
sp-staking = "*"
sp-core = "*"
sp-weights = "*"
sp-arithmetic = "*"
parity-scale-codec = { version = "*", features = ["derive"] }
scale-info = { version = "*", features = ["derive"] }
serde = { version = "*", features = ["derive"] }
pallet-contracts-uapi = "*"
