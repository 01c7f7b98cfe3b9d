[package]
name = "nugget_bls"
version = "0.1.0"
edition = "2021"
publish = false

[dependencies]
ark-ec = "0.5"
ark-ff = "0.5"
ark-serialize = "0.5"
ark-std = "0.5"
ark-bls12-381 = "0.5"
ark-bls12-377 = "0.5"
sha2 = "0.10"
digest = "0.10"
zeroize = "1"
