[package]
name = "data_escrow"
version = "0.1.0"
edition = "2021"
publish = false

[dependencies]
parity-scale-codec = { version = "3.7.5", default-features = false, features = ["derive"] }
scale-info = { version = "2.11.6", default-features = false, features = ["derive"] }
sp-std = { version = "14.0.0", default-features = false }
sp-runtime = { version = "49.0.0", default-features = false }
frame-support = { version = "49.0.0", default-features = false }
frame-system = { version = "49.0.0", default-features = false }
pallet-balances = { version = "51.0.0", default-features = false }
