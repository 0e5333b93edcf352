[package]
name = "anon_tokens"
version = "0.1.0"
edition = "2021"
publish = false

[dependencies]
curve25519-dalek-ng = { version = "4", features = ["serde"] }
rand_core = { version = "0.6", features = ["getrandom"] }
sha2 = "0.9"
serde = { version = "1", features = ["derive"] }
