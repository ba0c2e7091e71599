[package]
name = "doby"
version = "0.1.0"
edition = "2021"
publish = false

[dependencies]
aes = { version = "0.7", features = ["ctr"] }
argon2 = "0.4"
blake2 = "0.9"
chacha20 = "0.8"
clap = "2"
cpufeatures = "0.2"
hkdf = "0.11"
rand = "0.8"
rpassword = "5"
subtle = "2"
zeroize = "1"
