[package]
name = "zkbench"
version = "0.1.0"
edition = "2021"
publish = false

[dependencies]
p3-air = "=0.8.0"
p3-keccak-air = "=0.8.0"
p3-keccak = "=0.8.0"
p3-field = "=0.8.0"
p3-matrix = "=0.8.0"
p3-koala-bear = "=0.8.0"
p3-symmetric = "=0.8.0"
sha2 = "=0.11.0"
sha3 = "=0.12.0"
rand = "=0.8.8"
k256 = "=0.13.4"
p256 = "=0.13.2"
hex = "=0.4.3"
serde = "=1.0.229"
serde_json = "=1.0.151"
chrono = "=0.4.45"
num-bigint = "=0.5.1"
bincode = "=1.3.3"
spartan2 = "=0.9.0"
bellpepper = "=0.4.1"
bellpepper-core = "=0.4.0"
