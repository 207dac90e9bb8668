[package]
name = "find_folly"
version = "0.1.0"
edition = "2021"
publish = false

[dependencies]
pkg-config = "0.3"
shlex = "1"
thiserror = "1"
