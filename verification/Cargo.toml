[package]
name = "friidump"
version = "0.1.0"
edition = "2021"
publish = false

[dependencies]
crc32fast = "1"
md-5 = "0.10"
sha1 = "0.10"
libc = "0.2"
