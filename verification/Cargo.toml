[package]
name = "blas_array2"
version = "0.1.0"
edition = "2021"
publish = false

[dependencies]
ndarray = "0.15"
num-traits = "0.2"
num-complex = "0.4"
libc = "0.2"
blas-sys = "0.7"
derive_builder = "0.20"
