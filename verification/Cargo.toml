[package]
name = "conv_kernels"
version = "0.1.0"
edition = "2021"
publish = false

[dependencies]
burn-backend = { version = "=0.22.1", default-features = false, features = ["cubecl"] }
burn-std = { version = "=0.22.1", default-features = false }
cubecl = { version = "=0.11.3", default-features = false }
cubek = { version = "=0.3.1", default-features = false, features = ["stdlib", "convolution", "matmul"] }
