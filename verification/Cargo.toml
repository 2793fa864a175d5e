[package]
name = "ensnare"
version = "0.1.0"
edition = "2021"
publish = false

[dependencies]
bit-vec = "=0.10.1"
btreemultimap = "=0.1.1"
midly = "=0.5.3"
oorandom = "*"
