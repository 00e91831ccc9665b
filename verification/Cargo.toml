[package]
name = "dispute_slashing"
version = "0.1.0"
edition = "2021"
publish = false

[dependencies]
frame-support = "*"
frame-system = "*"
log = "*"
parity-scale-codec = { version = "*", features = ["derive"] }
scale-info = { version = "*", features = ["derive"] }
sp-io = "*"
sp-runtime = "*"
sp-session = "*"
sp-staking = "*"
sp-std = "*"
