[package]
name = "plonk_composer"
version = "0.1.0"
edition = "2021"
publish = false

[dependencies]
dusk-bls12_381 = "=0.14.2"
dusk-bytes = "=0.1.6"
derive-hex = "=0.1.2"
