[package]
name = "quantum_vault"
version = "0.1.0"
edition = "2021"
publish = false

[dependencies]
sha3 = "0.10"
solana-program = "2"
borsh = { version = "1", features = ["derive"] }
