[package]
name = "gossip"
version = "0.1.0"
edition = "2021"
publish = false

[dependencies]
async-std = "1"
futures = "0.3"
libp2p = { version = "0.53", default-features = false, features = ["async-std", "dns", "ed25519", "gossipsub", "noise", "tcp", "yamux"] }
