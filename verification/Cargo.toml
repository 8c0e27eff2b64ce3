[package]
name = "zlib"
version = "0.1.0"
edition = "2021"
publish = false

[dependencies]
adler32 = "1.0"
crc32fast = "1.2"
crossbeam-utils = "0.7"
flate2 = { version = "1.0", default-features = false, features = ["zlib"] }
libc = "0.2"
libz-sys = { version = "1.0", features = ["static"] }
