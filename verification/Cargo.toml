[package]
name = "grant_escrow"
version = "0.1.0"
edition = "2021"
publish = false

[dependencies]
soroban-sdk = "=20.5.0"

[dev-dependencies]
soroban-sdk = { version = "=20.5.0", features = ["testutils"] }
# The test utilities of soroban-sdk need the derive macro in the version of their `arbitrary`.
derive_arbitrary = "=1.3.2"
