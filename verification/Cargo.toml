[package]
name = "peaq_pallet_rbac"
version = "0.1.0"
edition = "2021"
publish = false

[dependencies]
parity-scale-codec = { version = "3", features = ["derive"] }
scale-info = { version = "2", features = ["derive"] }
serde = { version = "1", features = ["derive"] }
log = "0.4"
sp-io = "*"
sp-core = "*"
sp-std = "*"
sp-runtime = "*"
frame-support = "*"
frame-system = "*"
sp-api = "*"
