[package]
name = "pqfile"
version = "0.1.0"
edition = "2021"
publish = false

[dependencies]
pqcrypto-kyber = "*"
pqcrypto-traits = "*"
chacha20poly1305 = "*"
hkdf = "*"
sha2 = "*"
getrandom = "*"
clap = { version = "*", features = ["derive"] }
anyhow = "*"
