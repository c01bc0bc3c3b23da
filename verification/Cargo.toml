[package]
name = "blindsign"
version = "0.1.0"
edition = "2021"
publish = false

[dependencies]
curve25519-dalek = "3.2"
digest = "0.9"
rand = "0.8"
typenum = "1"
subtle = "2"
failure = "0.1"
failure_derive = "0.1"
log = "0.4"
env_logger = "0.10"

[dev-dependencies]
sha2 = "0.9"
sha3 = "0.9"
