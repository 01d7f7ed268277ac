[package]
name = "smolgnet"
version = "0.1.0"
edition = "2021"
publish = false

[dependencies]
getrandom = "0.3"
smoltcp = "0.12"
libc = "0.2"
bitvec = "1"
