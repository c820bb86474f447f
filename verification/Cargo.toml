[package]
name = "bitsave"
version = "0.1.0"
edition = "2021"
publish = false

[dependencies]
alloy-primitives = "=0.7.6"
alloy-sol-types = "=0.7.6"
# The U256 of alloy-primitives is ruint's. stylus-sdk 0.6.1 compiles against
# ruint 1.12 and not against later ones, so the version is held here.
ruint = "=1.12.3"
stylus-sdk = "=0.6.1"
