[package]
name = "hwlocality"
version = "0.1.0"
edition = "2021"
publish = false

[dependencies]
bitflags = "1.3"
errno = "0.3"
libc = "0.2"
quickcheck = { version = "1.0", default-features = false }
thiserror = "1.0"
