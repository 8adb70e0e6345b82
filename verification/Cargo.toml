[package]
name = "ring_io"
version = "0.1.0"
edition = "2021"
publish = false

[dependencies]
libc = "0.2"
anyhow = "1"
structopt = "0.3"
aligned-utils = "1"
