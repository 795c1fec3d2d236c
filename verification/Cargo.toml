[package]
name = "cubestore"
version = "0.1.0"
edition = "2021"
publish = false

[dependencies]
arrow = "*"
bigdecimal = "*"
num = "*"
serde = "*"
serde_derive = "*"
async-trait = "*"
log = "*"
