[package]
name = "arma_rs"
version = "0.1.0"
edition = "2021"
publish = false

[dependencies]
crossbeam-channel = "=0.5.17"
libc = "=0.2.191"
state = "=0.6.0"
seq-macro = "=0.3.6"
log = "=0.4.35"
serde_json = "=1.0.154"
