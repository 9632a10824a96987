[package]
name = "igm5000"
version = "0.1.0"
edition = "2021"
publish = false

[dependencies]
cxx-qt = "*"
cxx-qt-lib = "*"
libc = "0.2"
